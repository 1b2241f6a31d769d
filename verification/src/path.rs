//! The virtual path normalizer.
//!
//! A virtual path is split into components on `/`. Empty components and
//! `.` are dropped, `..` pops the last name pushed (never the root), and
//! the remaining names are rendered back; a path left with no names
//! becomes the bare root `/`.

use vstd::prelude::*;

use vstd::string::StrSliceExecFns;
use vstd::string::StringExecFns;

verus! {

/// Components of `s` split on `/`: one more component than separators, in
/// order, with the separators removed. The empty string has one empty
/// component.
pub open spec fn split_comps(s: Seq<char>) -> Seq<Seq<char>>
    decreases s.len(),
{
    if s.len() == 0 {
        seq![Seq::<char>::empty()]
    } else {
        let rest = split_comps(s.drop_last());
        if s.last() == '/' {
            rest.push(Seq::<char>::empty())
        } else {
            rest.update(rest.len() - 1, rest.last().push(s.last()))
        }
    }
}

/// Folds one component into the name stack: empty and `.` components are
/// dropped, `..` pops the last name if one is there, and any other
/// component is pushed as a name.
pub open spec fn norm_push(acc: Seq<Seq<char>>, c: Seq<char>) -> Seq<Seq<char>> {
    if c.len() == 0 {
        acc
    } else if c == seq!['.'] {
        acc
    } else if c == seq!['.', '.'] {
        if acc.len() > 0 {
            acc.drop_last()
        } else {
            acc
        }
    } else {
        acc.push(c)
    }
}

/// Left fold of `norm_push` over a component sequence.
pub open spec fn fold_comps(comps: Seq<Seq<char>>) -> Seq<Seq<char>>
    decreases comps.len(),
{
    if comps.len() == 0 {
        Seq::<Seq<char>>::empty()
    } else {
        norm_push(fold_comps(comps.drop_last()), comps.last())
    }
}

/// The name components that survive normalization of `s`.
pub open spec fn names_of(s: Seq<char>) -> Seq<Seq<char>> {
    fold_comps(split_comps(s))
}

/// Whether `s` names an absolute path (one that begins at the root).
pub open spec fn is_abs(s: Seq<char>) -> bool {
    s.len() > 0 && s[0] == '/'
}

/// The names joined with `/`, each name preceded by a separator.
pub open spec fn render_abs(names: Seq<Seq<char>>) -> Seq<char>
    decreases names.len(),
{
    if names.len() == 0 {
        Seq::<char>::empty()
    } else {
        render_abs(names.drop_last()) + seq!['/'] + names.last()
    }
}

/// The names joined with `/`, with no leading separator.
pub open spec fn render_rel(names: Seq<Seq<char>>) -> Seq<char>
    decreases names.len(),
{
    if names.len() == 0 {
        Seq::<char>::empty()
    } else if names.len() == 1 {
        names[0]
    } else {
        render_rel(names.drop_last()) + seq!['/'] + names.last()
    }
}

/// The normalized form of `s`: its surviving names, rendered absolute when
/// `s` was absolute, and the bare root when no name survives.
pub open spec fn normalize_spec(s: Seq<char>) -> Seq<char> {
    let names = names_of(s);
    if names.len() == 0 {
        seq!['/']
    } else if is_abs(s) {
        render_abs(names)
    } else {
        render_rel(names)
    }
}

/// The component sequence named by a stack of `(start, end)` character
/// ranges into `s`.
pub open spec fn ranges_to_comps(stack: Seq<(usize, usize)>, s: Seq<char>) -> Seq<Seq<char>> {
    stack.map_values(|r: (usize, usize)| s.subrange(r.0 as int, r.1 as int))
}

/// Every range in the stack is within `s` and non-degenerate.
pub open spec fn ranges_ok(stack: Seq<(usize, usize)>, s: Seq<char>) -> bool {
    forall|i: int| 0 <= i < stack.len() ==> (#[trigger] stack[i]).0 <= stack[i].1 <= s.len()
}

/// `c` contains no separator.
pub open spec fn no_slash(c: Seq<char>) -> bool {
    forall|i: int| 0 <= i < c.len() ==> c[i] != '/'
}

/// A component that survives normalization: non-empty, not a dot
/// component, and free of separators.
pub open spec fn clean_name(c: Seq<char>) -> bool {
    &&& c.len() > 0
    &&& c != seq!['.']
    &&& c != seq!['.', '.']
    &&& no_slash(c)
}

proof fn lemma_split_no_slash(s: Seq<char>)
    ensures
        forall|i: int| 0 <= i < split_comps(s).len() ==> no_slash(#[trigger] split_comps(s)[i]),
    decreases s.len(),
{
    if s.len() > 0 {
        lemma_split_no_slash(s.drop_last());
        let rest = split_comps(s.drop_last());
        assert(rest.len() > 0) by {
            lemma_split_nonempty(s.drop_last());
        }
        assert forall|i: int|
            0 <= i < split_comps(s).len() implies no_slash(#[trigger] split_comps(s)[i]) by {
            if s.last() == '/' {
                if i < rest.len() {
                    assert(split_comps(s)[i] == rest[i]);
                } else {
                    assert(split_comps(s)[i] == Seq::<char>::empty());
                }
            } else {
                if i == rest.len() - 1 {
                    assert(split_comps(s)[i] == rest.last().push(s.last()));
                    assert(no_slash(rest.last()));
                    assert forall|j: int|
                        0 <= j < rest.last().push(s.last()).len() implies rest.last().push(
                        s.last(),
                    )[j] != '/' by {
                        if j < rest.last().len() {
                            assert(rest.last().push(s.last())[j] == rest.last()[j]);
                        }
                    }
                } else {
                    assert(split_comps(s)[i] == rest[i]);
                }
            }
        }
    }
}

proof fn lemma_fold_clean(comps: Seq<Seq<char>>)
    requires
        forall|i: int| 0 <= i < comps.len() ==> no_slash(#[trigger] comps[i]),
    ensures
        forall|i: int|
            0 <= i < fold_comps(comps).len() ==> clean_name(#[trigger] fold_comps(comps)[i]),
    decreases comps.len(),
{
    if comps.len() > 0 {
        assert(forall|i: int|
            0 <= i < comps.drop_last().len() ==> no_slash(#[trigger] comps.drop_last()[i]));
        lemma_fold_clean(comps.drop_last());
        let acc = fold_comps(comps.drop_last());
        let c = comps.last();
        assert(no_slash(c));
        assert(fold_comps(comps) == norm_push(acc, c));
        assert forall|i: int|
            0 <= i < fold_comps(comps).len() implies clean_name(
            #[trigger] fold_comps(comps)[i],
        ) by {
            if c.len() == 0 || c == seq!['.'] {
                assert(fold_comps(comps)[i] == acc[i]);
            } else if c == seq!['.', '.'] {
                if acc.len() > 0 {
                    assert(fold_comps(comps)[i] == acc.drop_last()[i]);
                    assert(acc.drop_last()[i] == acc[i]);
                } else {
                    assert(fold_comps(comps)[i] == acc[i]);
                }
            } else {
                if i < acc.len() {
                    assert(fold_comps(comps)[i] == acc[i]);
                } else {
                    assert(fold_comps(comps)[i] == c);
                    assert(clean_name(c));
                }
            }
        }
    }
}

proof fn lemma_split_append_name(x: Seq<char>, c: Seq<char>)
    requires
        no_slash(c),
    ensures
        split_comps(x + c) == split_comps(x).update(
            split_comps(x).len() - 1,
            split_comps(x).last() + c,
        ),
    decreases c.len(),
{
    assert(split_comps(x).len() > 0) by {
        lemma_split_nonempty(x);
    }
    if c.len() == 0 {
        assert(x + c =~= x);
        assert(split_comps(x).last() + c =~= split_comps(x).last());
        assert(split_comps(x).update(split_comps(x).len() - 1, split_comps(x).last() + c)
            =~~= split_comps(x));
    } else {
        assert(forall|i: int| 0 <= i < c.drop_last().len() ==> c.drop_last()[i] != '/');
        lemma_split_append_name(x, c.drop_last());
        assert(x + c =~= (x + c.drop_last()).push(c.last()));
        assert((x + c.drop_last()).push(c.last()).drop_last() =~= x + c.drop_last());
        let sp = split_comps(x);
        let spx = split_comps(x + c.drop_last());
        assert(spx.last() == sp.last() + c.drop_last());
        assert(spx.last().push(c.last()) =~= sp.last() + c);
        assert(split_comps(x + c) =~~= sp.update(sp.len() - 1, sp.last() + c));
    }
}

proof fn lemma_split_nonempty(x: Seq<char>)
    ensures
        split_comps(x).len() > 0,
    decreases x.len(),
{
    if x.len() > 0 {
        lemma_split_nonempty(x.drop_last());
    }
}

proof fn lemma_split_append_slash(x: Seq<char>)
    ensures
        split_comps(x + seq!['/']) == split_comps(x).push(Seq::<char>::empty()),
{
    assert((x + seq!['/']).drop_last() =~= x);
    assert((x + seq!['/']).last() == '/');
    assert(split_comps(x + seq!['/']) =~~= split_comps(x).push(Seq::<char>::empty()));
}

proof fn lemma_split_render_abs(names: Seq<Seq<char>>)
    requires
        forall|i: int| 0 <= i < names.len() ==> clean_name(#[trigger] names[i]),
    ensures
        split_comps(render_abs(names)) == seq![Seq::<char>::empty()] + names,
    decreases names.len(),
{
    if names.len() == 0 {
        assert(render_abs(names) =~= Seq::<char>::empty());
        assert(split_comps(Seq::<char>::empty()) =~~= seq![Seq::<char>::empty()] + names);
    } else {
        assert(forall|i: int|
            0 <= i < names.drop_last().len() ==> clean_name(#[trigger] names.drop_last()[i]));
        lemma_split_render_abs(names.drop_last());
        let x = render_abs(names.drop_last());
        lemma_split_append_slash(x);
        lemma_split_append_name(x + seq!['/'], names.last());
        assert(render_abs(names) == x + seq!['/'] + names.last());
        let sps = split_comps(x + seq!['/']);
        assert(sps.last() + names.last() =~= names.last());
        assert(split_comps(render_abs(names)) =~~= seq![Seq::<char>::empty()] + names);
    }
}

proof fn lemma_split_render_rel(names: Seq<Seq<char>>)
    requires
        names.len() >= 1,
        forall|i: int| 0 <= i < names.len() ==> clean_name(#[trigger] names[i]),
    ensures
        split_comps(render_rel(names)) == names,
    decreases names.len(),
{
    if names.len() == 1 {
        lemma_split_append_name(Seq::<char>::empty(), names[0]);
        assert(Seq::<char>::empty() + names[0] =~= names[0]);
        assert(split_comps(Seq::<char>::empty()).last() + names[0] =~= names[0]);
        assert(split_comps(render_rel(names)) =~~= names);
    } else {
        assert(forall|i: int|
            0 <= i < names.drop_last().len() ==> clean_name(#[trigger] names.drop_last()[i]));
        lemma_split_render_rel(names.drop_last());
        let x = render_rel(names.drop_last());
        lemma_split_append_slash(x);
        lemma_split_append_name(x + seq!['/'], names.last());
        assert(render_rel(names) == x + seq!['/'] + names.last());
        let sps = split_comps(x + seq!['/']);
        assert(sps.last() + names.last() =~= names.last());
        assert(split_comps(render_rel(names)) =~~= names);
    }
}

proof fn lemma_fold_skip_leading_empty(names: Seq<Seq<char>>)
    ensures
        fold_comps(seq![Seq::<char>::empty()] + names) == fold_comps(names),
    decreases names.len(),
{
    let one = seq![Seq::<char>::empty()];
    if names.len() == 0 {
        assert(one + names =~~= one);
        assert(one.drop_last() =~~= Seq::<Seq<char>>::empty());
        assert(one.last() == Seq::<char>::empty());
        assert(fold_comps(Seq::<Seq<char>>::empty()) == Seq::<Seq<char>>::empty());
        assert(fold_comps(one) == norm_push(fold_comps(one.drop_last()), one.last()));
        assert(fold_comps(one) == Seq::<Seq<char>>::empty());
        assert(fold_comps(names) == Seq::<Seq<char>>::empty());
    } else {
        lemma_fold_skip_leading_empty(names.drop_last());
        let lhs = one + names;
        assert(lhs.drop_last() =~~= one + names.drop_last());
        assert(lhs.last() == names.last());
        assert(fold_comps(lhs) == norm_push(fold_comps(lhs.drop_last()), lhs.last()));
        assert(fold_comps(lhs.drop_last()) == fold_comps(one + names.drop_last()));
        assert(fold_comps(names) == norm_push(fold_comps(names.drop_last()), names.last()));
    }
}

proof fn lemma_fold_clean_id(names: Seq<Seq<char>>)
    requires
        forall|i: int| 0 <= i < names.len() ==> clean_name(#[trigger] names[i]),
    ensures
        fold_comps(names) == names,
    decreases names.len(),
{
    if names.len() > 0 {
        assert(forall|i: int|
            0 <= i < names.drop_last().len() ==> clean_name(#[trigger] names.drop_last()[i]));
        lemma_fold_clean_id(names.drop_last());
        assert(clean_name(names.last()));
        assert(fold_comps(names) =~~= names.drop_last().push(names.last()));
        assert(names.drop_last().push(names.last()) =~~= names);
    }
}

proof fn lemma_render_abs_starts_slash(names: Seq<Seq<char>>)
    requires
        names.len() >= 1,
    ensures
        render_abs(names).len() >= 1,
        render_abs(names)[0] == '/',
    decreases names.len(),
{
    assert(render_abs(names) == render_abs(names.drop_last()) + seq!['/'] + names.last());
    if names.len() == 1 {
        assert(names.drop_last().len() == 0);
        assert(render_abs(names.drop_last()) == Seq::<char>::empty());
        assert((Seq::<char>::empty() + seq!['/'])[0] == '/');
        assert(render_abs(names)[0] == (Seq::<char>::empty() + seq!['/'])[0]);
    } else {
        lemma_render_abs_starts_slash(names.drop_last());
        assert(render_abs(names)[0] == (render_abs(names.drop_last()) + seq!['/'])[0]);
        assert((render_abs(names.drop_last()) + seq!['/'])[0] == render_abs(
            names.drop_last(),
        )[0]);
    }
}

/// Law: normalization is idempotent — normalizing an already normalized
/// path changes nothing, for every input.
pub proof fn lemma_normalize_idempotent(s: Seq<char>)
    ensures
        normalize_spec(normalize_spec(s)) == normalize_spec(s),
{
    lemma_split_no_slash(s);
    lemma_fold_clean(split_comps(s));
    let names = names_of(s);
    let t = normalize_spec(s);
    if names.len() == 0 {
        assert(t == seq!['/']);
        assert(seq!['/'].drop_last() =~= Seq::<char>::empty());
        assert(seq!['/'].last() == '/');
        assert(split_comps(Seq::<char>::empty()) == seq![Seq::<char>::empty()]);
        assert(split_comps(seq!['/']) == split_comps(seq!['/'].drop_last()).push(
            Seq::<char>::empty(),
        ));
        let two = seq![Seq::<char>::empty()].push(Seq::<char>::empty());
        assert(split_comps(seq!['/']) == two);
        assert(two.drop_last() =~~= seq![Seq::<char>::empty()]);
        assert(two.last() == Seq::<char>::empty());
        assert(fold_comps(two) == norm_push(fold_comps(two.drop_last()), two.last()));
        let one = seq![Seq::<char>::empty()];
        assert(one.drop_last() =~~= Seq::<Seq<char>>::empty());
        assert(one.last() == Seq::<char>::empty());
        assert(fold_comps(one) == norm_push(fold_comps(one.drop_last()), one.last()));
        assert(fold_comps(one) == Seq::<Seq<char>>::empty());
        assert(fold_comps(two) == Seq::<Seq<char>>::empty());
        assert(names_of(t).len() == 0);
    } else if is_abs(s) {
        assert(t == render_abs(names));
        lemma_split_render_abs(names);
        lemma_fold_skip_leading_empty(names);
        lemma_fold_clean_id(names);
        assert(names_of(t) == names);
        lemma_render_abs_starts_slash(names);
        assert(is_abs(t));
    } else {
        assert(t == render_rel(names));
        lemma_split_render_rel(names);
        lemma_fold_clean_id(names);
        assert(names_of(t) == names);
        assert(clean_name(names[0]));
        assert(render_rel(names)[0] == names[0][0]) by {
            lemma_render_rel_starts(names);
        }
        assert(names[0][0] != '/');
        assert(!is_abs(t));
    }
}

proof fn lemma_render_rel_starts(names: Seq<Seq<char>>)
    requires
        names.len() >= 1,
        forall|i: int| 0 <= i < names.len() ==> clean_name(#[trigger] names[i]),
    ensures
        render_rel(names).len() >= 1,
        render_rel(names)[0] == names[0][0],
    decreases names.len(),
{
    if names.len() > 1 {
        assert(forall|i: int|
            0 <= i < names.drop_last().len() ==> clean_name(#[trigger] names.drop_last()[i]));
        lemma_render_rel_starts(names.drop_last());
        assert(names.drop_last()[0] == names[0]);
    }
}

proof fn lemma_fold_push(comps: Seq<Seq<char>>, c: Seq<char>)
    ensures
        fold_comps(comps.push(c)) == norm_push(fold_comps(comps), c),
{
    assert(comps.push(c).drop_last() =~= comps);
    assert(comps.push(c).last() == c);
}

/// Scans `s` and returns the surviving name components as character ranges
/// into `s`.
pub(crate) fn scan_names(s: &str) -> (stack: Vec<(usize, usize)>)
    ensures
        ranges_ok(stack@, s@),
        ranges_to_comps(stack@, s@) == names_of(s@),
        forall|i: int| 0 <= i < stack@.len() ==> (#[trigger] stack@[i]).0 < stack@[i].1,
{
    let n: usize = s.unicode_len();
    let mut stack: Vec<(usize, usize)> = Vec::new();
    let mut comp_start: usize = 0;
    let ghost mut closed: Seq<Seq<char>> = Seq::empty();
    let mut i: usize = 0;

    proof {
        assert(split_comps(s@.subrange(0, 0)) =~~= closed.push(s@.subrange(0, 0)));
        assert(ranges_to_comps(stack@, s@) =~~= fold_comps(closed));
    }

    while i < n
        invariant
            n == s@.len(),
            0 <= comp_start <= i <= n,
            split_comps(s@.subrange(0, i as int)) == closed.push(
                s@.subrange(comp_start as int, i as int),
            ),
            ranges_to_comps(stack@, s@) == fold_comps(closed),
            ranges_ok(stack@, s@),
            forall|j: int| 0 <= j < stack@.len() ==> (#[trigger] stack@[j]).0 < stack@[j].1,
        decreases n - i,
    {
        let c = s.get_char(i);
        proof {
            let prefix = s@.subrange(0, i as int);
            let prefix2 = s@.subrange(0, i + 1 as int);
            assert(prefix2.drop_last() =~= prefix);
            assert(prefix2.last() == s@[i as int]);
        }
        if c == '/' {
            let ghost comp = s@.subrange(comp_start as int, i as int);
            push_component(s, &mut stack, comp_start, i);
            proof {
                lemma_fold_push(closed, comp);
                closed = closed.push(comp);
                assert(split_comps(s@.subrange(0, i + 1 as int)) =~~= closed.push(
                    s@.subrange(i + 1 as int, i + 1 as int),
                ));
            }
            comp_start = i + 1;
        } else {
            proof {
                let old_partial = s@.subrange(comp_start as int, i as int);
                let new_partial = s@.subrange(comp_start as int, i + 1 as int);
                assert(new_partial =~= old_partial.push(s@[i as int]));
                let sp = split_comps(s@.subrange(0, i as int));
                assert(sp.update(sp.len() - 1, sp.last().push(s@[i as int])) =~~= closed.push(
                    new_partial,
                ));
            }
        }
        i = i + 1;
    }
    let ghost comp = s@.subrange(comp_start as int, n as int);
    push_component(s, &mut stack, comp_start, n);
    proof {
        assert(s@.subrange(0, n as int) =~= s@);
        lemma_fold_push(closed, comp);
    }
    stack
}

/// Folds the component `s[start..end]` into the range stack, as
/// `norm_push` does in specification.
fn push_component(s: &str, stack: &mut Vec<(usize, usize)>, start: usize, end: usize)
    requires
        start <= end <= s@.len(),
        ranges_ok(old(stack)@, s@),
        forall|j: int| 0 <= j < old(stack)@.len() ==> (#[trigger] old(stack)@[j]).0 < old(stack)@[j].1,
    ensures
        ranges_ok(final(stack)@, s@),
        forall|j: int| 0 <= j < final(stack)@.len() ==> (#[trigger] final(stack)@[j]).0 < final(stack)@[j].1,
        ranges_to_comps(final(stack)@, s@) == norm_push(
            ranges_to_comps(old(stack)@, s@),
            s@.subrange(start as int, end as int),
        ),
{
    let ghost comp = s@.subrange(start as int, end as int);
    let len = end - start;
    if len == 0 {
        return ;
    }
    if len == 1 && s.get_char(start) == '.' {
        proof {
            assert(comp =~= seq!['.']);
        }
        return ;
    }
    if len == 2 && s.get_char(start) == '.' && s.get_char(start + 1) == '.' {
        proof {
            assert(comp =~= seq!['.', '.']);
        }
        if stack.len() > 0 {
            stack.pop();
            proof {
                assert(ranges_to_comps(stack@, s@) =~= ranges_to_comps(
                    old(stack)@,
                    s@,
                ).drop_last());
            }
        }
        return ;
    }
    proof {
        assert(comp.len() >= 1);
        assert(comp != seq!['.'] && comp != seq!['.', '.']) by {
            if comp == seq!['.'] {
                assert(comp.len() == 1);
                assert(comp[0] == '.');
                assert(len == 1 && s@[start as int] == '.');
            }
            if comp == seq!['.', '.'] {
                assert(comp.len() == 2);
                assert(comp[0] == '.' && comp[1] == '.');
                assert(len == 2 && s@[start as int] == '.' && s@[start + 1 as int] == '.');
            }
        }
    }
    stack.push((start, end));
    proof {
        assert(ranges_to_comps(stack@, s@) =~= ranges_to_comps(old(stack)@, s@).push(comp));
    }
}

/// Collapses `.` and `..` and redundant separators, yielding a canonical
/// path; an input left with no components becomes the bare root.
pub fn normalize_virtual_path(input: &str) -> (r: String)
    ensures
        r@ == normalize_spec(input@),
{
    let stack = scan_names(input);
    let abs = if input.unicode_len() > 0 {
        input.get_char(0) == '/'
    } else {
        false
    };
    let mut out = String::new();
    proof {
        reveal_strlit("/");
        assert("/"@ =~= seq!['/']);
    }
    if stack.len() == 0 {
        out.append("/");
        proof {
            assert(out@ =~= normalize_spec(input@));
        }
        return out;
    }
    let ghost names = names_of(input@);
    let mut k: usize = 0;
    while k < stack.len()
        invariant
            ranges_ok(stack@, input@),
            ranges_to_comps(stack@, input@) == names,
            0 <= k <= stack@.len(),
            stack@.len() > 0,
            abs == is_abs(input@),
            abs ==> out@ == render_abs(names.subrange(0, k as int)),
            !abs ==> out@ == render_rel(names.subrange(0, k as int)),
        decreases stack@.len() - k,
    {
        let (a, b) = stack[k];
        let piece = input.substring_char(a, b);
        proof {
            reveal_strlit("/");
            assert("/"@ =~= seq!['/']);
            let pre = names.subrange(0, k as int);
            let post = names.subrange(0, k + 1 as int);
            assert(post.drop_last() =~= pre);
            assert(post.last() == names[k as int]);
            assert(piece@ == names[k as int]);
        }
        if abs || k > 0 {
            out.append("/");
        }
        out.append(piece);
        k = k + 1;
    }
    proof {
        assert(names.subrange(0, stack@.len() as int) =~= names);
    }
    out
}

} // verus!
