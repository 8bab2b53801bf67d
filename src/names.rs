//! Lists of addresses kept as sets: allow-lists, creators, restricted prefixes.
use vstd::prelude::*;

verus! {

/// `x` is in `list`.
pub open spec fn holds(list: Seq<String>, x: Seq<char>) -> bool {
    exists|i: int| 0 <= i < list.len() && #[trigger] list[i]@ == x
}

/// The position of `x` in `list`, if it is there.
pub fn position_of(list: &Vec<String>, x: &String) -> (r: Option<usize>)
    ensures
        r is None <==> !holds(list@, x@),
        r matches Some(i) ==> i < list@.len() && list@[i as int]@ == x@,
{
    let mut i: usize = 0;
    while i < list.len()
        invariant
            i <= list@.len(),
            forall|j: int| 0 <= j < i ==> #[trigger] list@[j]@ != x@,
        decreases list@.len() - i,
    {
        if list[i] == *x {
            return Some(i);
        }
        i = i + 1;
    }
    None
}

/// Whether `x` is in `list`.
pub fn contains_name(list: &Vec<String>, x: &String) -> (r: bool)
    ensures
        r == holds(list@, x@),
{
    position_of(list, x).is_some()
}

/// Adds each of `names` that `list` does not hold yet.
pub fn add_names(list: &mut Vec<String>, names: &Vec<String>)
    ensures
        forall|x: Seq<char>| #[trigger]
            holds(final(list)@, x) <==> holds(old(list)@, x) || holds(names@, x),
{
    let mut k: usize = 0;
    while k < names.len()
        invariant
            k <= names@.len(),
            forall|x: Seq<char>| #[trigger]
                holds(list@, x) <==> holds(old(list)@, x) || holds(names@.take(k as int), x),
        decreases names@.len() - k,
    {
        let ghost before = list@;
        if !contains_name(list, &names[k]) {
            list.push(names[k].clone());
        }
        assert forall|x: Seq<char>| #[trigger]
            holds(list@, x) <==> holds(before, x) || x == names@[k as int]@ by {
            if holds(list@, x) {
                let i = choose|i: int| 0 <= i < list@.len() && #[trigger] list@[i]@ == x;
                if i < before.len() {
                    assert(before[i]@ == x);
                }
            }
            if holds(before, x) {
                let i = choose|i: int| 0 <= i < before.len() && #[trigger] before[i]@ == x;
                assert(list@[i]@ == x);
            }
            if x == names@[k as int]@ && !holds(before, x) {
                assert(list@[list@.len() - 1]@ == x);
            }
        }
        assert forall|x: Seq<char>| #[trigger]
            holds(names@.take(k + 1), x) <==> holds(names@.take(k as int), x) || x
                == names@[k as int]@ by {
            let t = names@.take(k + 1);
            if holds(t, x) {
                let i = choose|i: int| 0 <= i < t.len() && #[trigger] t[i]@ == x;
                if i < k {
                    assert(names@.take(k as int)[i]@ == x);
                }
            }
            if holds(names@.take(k as int), x) {
                let i = choose|i: int|
                    0 <= i < names@.take(k as int).len() && #[trigger] names@.take(k as int)[i]@
                        == x;
                assert(t[i]@ == x);
            }
            if x == names@[k as int]@ {
                assert(t[k as int]@ == x);
            }
        }
        k = k + 1;
    }
    assert(names@.take(names@.len() as int) =~= names@);
}

} // verus!
