//! The order of strings, and sets of names kept in that order.
//!
//! Strings are ordered by their first differing character; where one begins
//! the other, the shorter comes first. Encoded as UTF-8 this is the order of
//! the bytes.

use vstd::prelude::*;
use vstd::relations::total_ordering;
use vstd::string::*;

use crate::text;

verus! {

/// `a` comes before `b`.
pub open spec fn before(a: Seq<char>, b: Seq<char>) -> bool
    decreases a.len(),
{
    if b.len() == 0 {
        false
    } else if a.len() == 0 {
        true
    } else if a[0] == b[0] {
        before(a.drop_first(), b.drop_first())
    } else {
        a[0] < b[0]
    }
}

/// No string comes before itself.
pub proof fn before_irreflexive(a: Seq<char>)
    ensures
        !before(a, a),
    decreases a.len(),
{
    if a.len() > 0 {
        before_irreflexive(a.drop_first());
    }
}

/// The order is transitive.
pub proof fn before_transitive(a: Seq<char>, b: Seq<char>, c: Seq<char>)
    requires
        before(a, b),
        before(b, c),
    ensures
        before(a, c),
    decreases a.len(),
{
    if a.len() > 0 && b.len() > 0 && c.len() > 0 && a[0] == b[0] && b[0] == c[0] {
        before_transitive(a.drop_first(), b.drop_first(), c.drop_first());
    }
}

/// Of two different strings one comes before the other.
pub proof fn before_total(a: Seq<char>, b: Seq<char>)
    ensures
        a == b || before(a, b) || before(b, a),
    decreases a.len(),
{
    if a.len() > 0 && b.len() > 0 && a[0] == b[0] {
        before_total(a.drop_first(), b.drop_first());
        if a.drop_first() == b.drop_first() {
            assert(a =~= seq![a[0]] + a.drop_first());
            assert(b =~= seq![b[0]] + b.drop_first());
        }
    } else if a.len() == 0 && b.len() == 0 {
        assert(a =~= b);
    }
}

/// Whether `a` comes before `b`.
pub fn comes_before(a: &str, b: &str) -> (r: bool)
    ensures
        r == before(a@, b@),
{
    let xs: Vec<char> = text::chars_of(a);
    let ys: Vec<char> = text::chars_of(b);
    let mut i: usize = 0;
    proof {
        assert(a@.skip(0) =~= a@);
        assert(b@.skip(0) =~= b@);
    }
    loop
        invariant
            xs@ == a@,
            ys@ == b@,
            i <= xs.len(),
            i <= ys.len(),
            before(a@, b@) == before(a@.skip(i as int), b@.skip(i as int)),
        decreases xs.len() - i,
    {
        if i >= ys.len() {
            return false;
        }
        if i >= xs.len() {
            return true;
        }
        if xs[i] != ys[i] {
            return xs[i] < ys[i];
        }
        proof {
            assert(a@.skip(i as int).drop_first() =~= a@.skip(i + 1));
            assert(b@.skip(i as int).drop_first() =~= b@.skip(i + 1));
        }
        i = i + 1;
    }
}

/// Every name comes before those behind it, so that none occurs twice.
pub open spec fn increasing(names: Seq<Seq<char>>) -> bool {
    forall|i: int, j: int| 0 <= i < j < names.len() ==> before(#[trigger] names[i], #[trigger] names[j])
}

/// `r` lists the names of `names`, each once, in order.
pub open spec fn ordered_names(r: Seq<Seq<char>>, names: Set<Seq<char>>) -> bool {
    increasing(r) && forall|x: Seq<char>| #[trigger] r.contains(x) <==> names.contains(x)
}

/// There is only one way to list names in order, each once.
pub proof fn ordered_names_unique(a: Seq<Seq<char>>, b: Seq<Seq<char>>, names: Set<Seq<char>>)
    requires
        ordered_names(a, names),
        ordered_names(b, names),
    ensures
        a == b,
    decreases a.len(),
{
    if a.len() == 0 {
        if b.len() > 0 {
            assert(b.contains(b[0]));
            assert(names.contains(b[0]));
            assert(a.contains(b[0]));
        }
        assert(a =~= b);
    } else {
        assert(a.contains(a.last()));
        assert(names.contains(a.last()));
        assert(b.contains(a.last()));
        let ib = b.index_of(a.last());
        assert(b.contains(b.last()));
        assert(names.contains(b.last()));
        assert(a.contains(b.last()));
        let ia = a.index_of(b.last());
        // Each of the two last names comes no later than the other.
        assert(a.last() == b.last()) by {
            if a.last() != b.last() {
                assert(before(a[ia], a[a.len() - 1]));
                assert(before(b[ib], b[b.len() - 1]));
                before_transitive(a.last(), b.last(), a.last());
                before_irreflexive(a.last());
            }
        }
        let x = a.last();
        let rest = names.remove(x);
        drop_last_ordered(a, names);
        drop_last_ordered(b, names);
        ordered_names_unique(a.drop_last(), b.drop_last(), rest);
        assert(a =~= a.drop_last().push(x));
        assert(b =~= b.drop_last().push(x));
    }
}

proof fn drop_last_ordered(s: Seq<Seq<char>>, names: Set<Seq<char>>)
    requires
        ordered_names(s, names),
        s.len() > 0,
    ensures
        ordered_names(s.drop_last(), names.remove(s.last())),
{
    let x = s.last();
    let front = s.drop_last();
    assert forall|y: Seq<char>| #[trigger] front.contains(y) <==> names.remove(x).contains(y) by {
        if front.contains(y) {
            let i = front.index_of(y);
            assert(s[i] == y);
            assert(s.contains(y));
            assert(before(s[i], s[s.len() - 1]));
            before_irreflexive(x);
        }
        if names.remove(x).contains(y) {
            assert(s.contains(y));
            let i = s.index_of(y);
            assert(front[i] == y);
        }
    }
}

/// The names of `names` in order, each once.
pub open spec fn in_order(names: Set<Seq<char>>) -> Seq<Seq<char>> {
    choose|s: Seq<Seq<char>>| ordered_names(s, names)
}

/// A list of the names in order is the list of the names in order.
pub proof fn in_order_is(s: Seq<Seq<char>>, names: Set<Seq<char>>)
    requires
        ordered_names(s, names),
    ensures
        in_order(names) == s,
{
    ordered_names_unique(in_order(names), s, names);
}

/// The names of a finite set can be listed in order, each once.
pub proof fn finite_names_have_order(names: Set<Seq<char>>)
    requires
        names.finite(),
    ensures
        ordered_names(in_order(names), names),
    decreases names.len(),
{
    if names.len() == 0 {
        assert(names =~= Set::empty());
        assert(ordered_names(Seq::<Seq<char>>::empty(), names));
    } else {
        let leq = |a: Seq<char>, b: Seq<char>| a == b || before(a, b);
        assert(total_ordering(leq)) by {
            assert forall|a: Seq<char>, b: Seq<char>| #[trigger] leq(a, b) && #[trigger] leq(
                b,
                a,
            ) implies a == b by {
                if a != b {
                    before_transitive(a, b, a);
                    before_irreflexive(a);
                }
            }
            assert forall|a: Seq<char>, b: Seq<char>, c: Seq<char>| #[trigger]
                leq(a, b) && #[trigger] leq(b, c) implies leq(a, c) by {
                if a != b && b != c {
                    before_transitive(a, b, c);
                }
            }
            assert forall|a: Seq<char>, b: Seq<char>| #[trigger] leq(a, b) || #[trigger] leq(
                b,
                a,
            ) by {
                before_total(a, b);
            }
        }
        let last = names.find_unique_maximal(leq);
        names.find_unique_maximal_ensures(leq);
        let rest = names.remove(last);
        finite_names_have_order(rest);
        let s = in_order(rest).push(last);
        assert forall|i: int, j: int| 0 <= i < j < s.len() implies before(
            #[trigger] s[i],
            #[trigger] s[j],
        ) by {
            let x = in_order(rest)[i];
            assert(in_order(rest).contains(x));
            assert(rest.contains(x));
            if j < in_order(rest).len() {
                assert(before(in_order(rest)[i], in_order(rest)[j]));
            } else {
                before_total(x, last);
                assert(names.contains(x) && x != last);
                assert(leq(last, x) ==> leq(x, last));
                assert(s[i] == x && s[j] == last);
            }
        }
        assert forall|x: Seq<char>| #[trigger] s.contains(x) <==> names.contains(x) by {
            if s.contains(x) {
                let i = s.index_of(x);
                if i < in_order(rest).len() {
                    assert(in_order(rest)[i] == x);
                    assert(in_order(rest).contains(x));
                }
            }
            if names.contains(x) {
                if x == last {
                    assert(s[s.len() - 1] == x);
                } else {
                    assert(in_order(rest).contains(x));
                    let i = in_order(rest).index_of(x);
                    assert(s[i] == x);
                }
            }
        }
        assert(ordered_names(s, names));
    }
}

/// A list of names in order holds the names and no others.
pub proof fn listed_names_are_the_names(s: Seq<Seq<char>>, names: Set<Seq<char>>)
    requires
        ordered_names(s, names),
    ensures
        s.to_set() == names,
        names.finite(),
{
    assert forall|x: Seq<char>| s.to_set().contains(x) <==> names.contains(x) by {
        assert(s.contains(x) <==> names.contains(x));
    }
    assert(s.to_set() =~= names);
    vstd::seq_lib::seq_to_set_is_finite(s);
}


/// A thing that has a name.
pub trait Named {
    /// The name.
    spec fn name_text(&self) -> Seq<char>;

    /// The name.
    fn name_str(&self) -> (r: &str)
        ensures
            r@ == self.name_text(),
    ;
}

/// `x` put into `s` behind everything whose name does not come after its own.
pub open spec fn inserted<T: Named>(s: Seq<T>, x: T) -> Seq<T>
    decreases s.len(),
{
    if s.len() == 0 || !before(x.name_text(), s.last().name_text()) {
        s.push(x)
    } else {
        inserted(s.drop_last(), x).push(s.last())
    }
}

/// `s` in the order of the names; things of one name keep their order.
pub open spec fn sorted_by_name<T: Named>(s: Seq<T>) -> Seq<T>
    decreases s.len(),
{
    if s.len() == 0 {
        s
    } else {
        inserted(sorted_by_name(s.drop_last()), s.last())
    }
}

/// No name comes before one that stands in front of it.
pub open spec fn in_name_order<T: Named>(s: Seq<T>) -> bool {
    forall|i: int, j: int|
        0 <= i < j < s.len() ==> !before(
            (#[trigger] s[j]).name_text(),
            (#[trigger] s[i]).name_text(),
        )
}

proof fn inserted_at<T: Named>(s: Seq<T>, x: T, i: int)
    requires
        0 <= i <= s.len(),
        i > 0 ==> !before(x.name_text(), s[i - 1].name_text()),
        forall|k: int| i <= k < s.len() ==> before(x.name_text(), (#[trigger] s[k]).name_text()),
    ensures
        inserted(s, x) == s.insert(i, x),
    decreases s.len(),
{
    if i == s.len() {
        assert(s.insert(i, x) =~= s.push(x));
    } else {
        assert(s[s.len() - 1] == s.last());
        inserted_at(s.drop_last(), x, i);
        assert(s.insert(i, x) =~= s.drop_last().insert(i, x).push(s.last()));
    }
}

proof fn inserted_keeps_order<T: Named>(s: Seq<T>, x: T)
    requires
        in_name_order(s),
    ensures
        in_name_order(inserted(s, x)),
        inserted(s, x).to_multiset() == s.to_multiset().insert(x),
        inserted(s, x).len() == s.len() + 1,
    decreases s.len(),
{
    broadcast use vstd::seq_lib::group_to_multiset_ensures;

    if s.len() == 0 || !before(x.name_text(), s.last().name_text()) {
        let r = s.push(x);
        assert forall|i: int, j: int| 0 <= i < j < r.len() implies !before(
            (#[trigger] r[j]).name_text(),
            (#[trigger] r[i]).name_text(),
        ) by {
            if j == s.len() {
                let last = s.last().name_text();
                if before(x.name_text(), s[i].name_text()) {
                    before_total(s[i].name_text(), last);
                    if i < s.len() - 1 {
                        assert(!before(s[s.len() - 1].name_text(), s[i].name_text()));
                    }
                    if before(s[i].name_text(), last) {
                        before_transitive(x.name_text(), s[i].name_text(), last);
                    }
                }
            }
        }
    } else {
        let front = s.drop_last();
        inserted_keeps_order(front, x);
        let m = inserted(front, x);
        let r = m.push(s.last());
        assert(s =~= front.push(s.last()));
        assert(r.to_multiset() =~= s.to_multiset().insert(x));
        assert forall|i: int, j: int| 0 <= i < j < r.len() implies !before(
            (#[trigger] r[j]).name_text(),
            (#[trigger] r[i]).name_text(),
        ) by {
            if j == m.len() {
                assert(m.to_multiset().count(m[i]) > 0) by {
                    assert(m.contains(m[i]));
                }
                assert(front.to_multiset().insert(x).count(m[i]) > 0);
                if m[i] == x {
                    if before(s.last().name_text(), x.name_text()) {
                        before_transitive(
                            x.name_text(),
                            s.last().name_text(),
                            x.name_text(),
                        );
                        before_irreflexive(x.name_text());
                    }
                } else {
                    assert(front.to_multiset().count(m[i]) > 0);
                    assert(front.contains(m[i]));
                    let k = front.index_of(m[i]);
                    assert(s[k] == m[i]);
                    assert(!before(s[s.len() - 1].name_text(), s[k].name_text()));
                }
            }
        }
    }
}

/// Sorting by name puts things in the order of their names, and neither loses
/// nor adds any.
pub proof fn sorted_by_name_sorts<T: Named>(s: Seq<T>)
    ensures
        in_name_order(sorted_by_name(s)),
        sorted_by_name(s).to_multiset() == s.to_multiset(),
        sorted_by_name(s).len() == s.len(),
    decreases s.len(),
{
    broadcast use vstd::seq_lib::group_to_multiset_ensures;

    if s.len() > 0 {
        sorted_by_name_sorts(s.drop_last());
        inserted_keeps_order(sorted_by_name(s.drop_last()), s.last());
        assert(s =~= s.drop_last().push(s.last()));
    }
}

/// The things of `v` in the order of their names.
pub fn sort_by_name<T: Named>(v: Vec<T>) -> (r: Vec<T>)
    ensures
        r@ == sorted_by_name(v@),
{
    let ghost all = v@;
    let mut rest: Vec<T> = v;
    let mut out: Vec<T> = Vec::new();
    proof {
        assert(all.take(0) =~= Seq::<T>::empty());
        assert(all.skip(0) =~= all);
    }
    while rest.len() > 0
        invariant
            rest@.len() <= all.len(),
            rest@ == all.skip(all.len() - rest@.len()),
            out@ == sorted_by_name(all.take(all.len() - rest@.len())),
        decreases rest.len(),
    {
        let ghost n = all.len() - rest@.len();
        let x: T = rest.remove(0);
        let mut i: usize = out.len();
        while i > 0 && comes_before(x.name_str(), out[i - 1].name_str())
            invariant
                i <= out.len(),
                forall|k: int|
                    i <= k < out.len() ==> before(
                        x.name_text(),
                        (#[trigger] out@[k]).name_text(),
                    ),
            decreases i,
        {
            i = i - 1;
        }
        proof {
            inserted_at(out@, x, i as int);
            assert(all.take(n + 1).drop_last() =~= all.take(n));
            assert(all.take(n + 1).last() == x);
            assert(rest@ =~= all.skip(n + 1));
        }
        out.insert(i, x);
    }
    proof {
        assert(all.take(all.len() as int) =~= all);
    }
    out
}

/// A set of names, kept in order.
#[derive(Debug, PartialEq)]
pub struct NameSet {
    names: Vec<String>,
}

impl View for NameSet {
    type V = Set<Seq<char>>;

    closed spec fn view(&self) -> Set<Seq<char>> {
        text::texts(self.names@).to_set()
    }
}

/// A set of names is finite.
pub proof fn name_set_is_finite(s: NameSet)
    ensures
        s@.finite(),
{
    vstd::seq_lib::seq_to_set_is_finite(text::texts(s.names@));
}

impl NameSet {
    #[verifier::type_invariant]
    spec fn in_order(self) -> bool {
        increasing(text::texts(self.names@))
    }

    /// The names, in order.
    pub closed spec fn listed(self) -> Seq<Seq<char>> {
        text::texts(self.names@)
    }

    /// The empty set.
    pub fn new() -> (r: NameSet)
        ensures
            r@ == Set::<Seq<char>>::empty(),
    {
        let r = NameSet { names: Vec::new() };
        proof {
            assert(text::texts(r.names@) =~= Seq::<Seq<char>>::empty());
            assert(r@ =~= Set::<Seq<char>>::empty());
        }
        r
    }

    /// The names, in order, each once.
    pub fn names(&self) -> (r: &Vec<String>)
        ensures
            text::texts(r@) == self.listed(),
            ordered_names(text::texts(r@), self@),
    {
        proof {
            use_type_invariant(self);
            let l = text::texts(self.names@);
            assert forall|x: Seq<char>| #[trigger] l.contains(x) <==> self@.contains(x) by {
            }
        }
        &self.names
    }

    /// The place of `name`, or where it would go: all names before it come
    /// before `name`, and all from there on do not.
    fn place(names: &Vec<String>, name: &str) -> (r: usize)
        requires
            increasing(text::texts(names@)),
        ensures
            r <= names.len(),
            forall|i: int| 0 <= i < r ==> before(#[trigger] text::texts(names@)[i], name@),
            forall|i: int| r <= i < names.len() ==> !before(#[trigger] text::texts(names@)[i], name@),
    {
        let ghost l = text::texts(names@);
        let mut i: usize = 0;
        while i < names.len()
            invariant
                l == text::texts(names@),
                increasing(l),
                i <= names.len(),
                forall|k: int| 0 <= k < i ==> before(#[trigger] l[k], name@),
            decreases names.len() - i,
        {
            if !comes_before(names[i].as_str(), name) {
                proof {
                    assert forall|k: int| i <= k < names.len() implies !before(
                        #[trigger] l[k],
                        name@,
                    ) by {
                        if i < k && before(l[k], name@) {
                            assert(before(l[i as int], l[k]));
                            before_transitive(l[i as int], l[k], name@);
                        }
                    }
                }
                return i;
            }
            i = i + 1;
        }
        i
    }

    /// Whether `name` is in the set.
    pub fn contains(&self, name: &str) -> (r: bool)
        ensures
            r == self@.contains(name@),
    {
        proof {
            use_type_invariant(self);
        }
        let ghost l = text::texts(self.names@);
        let i: usize = NameSet::place(&self.names, name);
        proof {
            assert(l.contains(name@) <==> self@.contains(name@)) by {
            }
        }
        if i < self.names.len() && text::same(self.names[i].as_str(), name) {
            proof {
                assert(l[i as int] == name@);
            }
            true
        } else {
            proof {
                if l.contains(name@) {
                    let k = l.index_of(name@);
                    before_irreflexive(name@);
                    assert(i <= k);
                    if i < k {
                        assert(before(l[i as int], l[k]));
                    }
                }
            }
            false
        }
    }

    /// Put `name` into the set; `true` where it was not there.
    pub fn insert(&mut self, name: String) -> (r: bool)
        ensures
            final(self)@ == old(self)@.insert(name@),
            r == !old(self)@.contains(name@),
    {
        if self.contains(name.as_str()) {
            proof {
                assert(self@ =~= old(self)@.insert(name@));
            }
            return false;
        }
        proof {
            use_type_invariant(&*self);
        }
        let ghost l = text::texts(self.names@);
        let ghost s0 = self@;
        let mut names: Vec<String> = Vec::new();
        std::mem::swap(&mut names, &mut self.names);
        let i: usize = NameSet::place(&names, name.as_str());
        let ghost x = name@;
        names.insert(i, name);
        proof {
            let m = text::texts(names@);
            assert(m =~= l.insert(i as int, x));
            assert forall|p: int, q: int| 0 <= p < q < m.len() implies before(
                #[trigger] m[p],
                #[trigger] m[q],
            ) by {
                if p == i {
                    before_total(x, l[q - 1]);
                    assert(l.contains(l[q - 1]));
                } else if q == i {
                    assert(before(l[p], x));
                } else {
                    let pp = if p < i { p } else { p - 1 };
                    let qq = if q < i { q } else { q - 1 };
                    assert(before(l[pp], l[qq]));
                }
            }
            assert forall|y: Seq<char>| m.to_set().contains(y) <==> s0.insert(x).contains(y) by {
                if m.contains(y) {
                    let k = m.index_of(y);
                    if k < i {
                        assert(l[k] == y);
                    } else if k > i {
                        assert(l[k - 1] == y);
                    }
                }
                if l.contains(y) {
                    let k = l.index_of(y);
                    if k < i {
                        assert(m[k] == y);
                    } else {
                        assert(m[k + 1] == y);
                    }
                }
                assert(m[i as int] == x);
            }
            assert(m.to_set() =~= s0.insert(x));
        }
        self.names = names;
        true
    }

    /// Take `name` out of the set; `true` where it was there.
    pub fn remove(&mut self, name: &str) -> (r: bool)
        ensures
            final(self)@ == old(self)@.remove(name@),
            r == old(self)@.contains(name@),
    {
        if !self.contains(name) {
            proof {
                assert(self@ =~= old(self)@.remove(name@));
            }
            return false;
        }
        proof {
            use_type_invariant(&*self);
        }
        let ghost l = text::texts(self.names@);
        let ghost s0 = self@;
        let mut names: Vec<String> = Vec::new();
        std::mem::swap(&mut names, &mut self.names);
        let i: usize = NameSet::place(&names, name);
        proof {
            assert(l.contains(name@));
            let k = l.index_of(name@);
            before_irreflexive(name@);
            assert(i <= k);
            if i < k {
                assert(before(l[i as int], l[k]));
            }
            assert(l[i as int] == name@);
        }
        names.remove(i);
        proof {
            let m = text::texts(names@);
            assert(m =~= l.remove(i as int));
            assert forall|p: int, q: int| 0 <= p < q < m.len() implies before(
                #[trigger] m[p],
                #[trigger] m[q],
            ) by {
                let pp = if p < i { p } else { p + 1 };
                let qq = if q < i { q } else { q + 1 };
                assert(before(l[pp], l[qq]));
            }
            assert forall|y: Seq<char>| m.to_set().contains(y) <==> s0.remove(name@).contains(y) by {
                if m.contains(y) {
                    let k = m.index_of(y);
                    let kk = if k < i { k } else { k + 1 };
                    assert(l[kk] == y);
                    before_irreflexive(y);
                    if y == name@ {
                        if kk < i {
                            assert(before(l[kk], l[i as int]));
                        } else {
                            assert(before(l[i as int], l[kk]));
                        }
                    }
                }
                if l.contains(y) && y != name@ {
                    let k = l.index_of(y);
                    if k < i {
                        assert(m[k] == y);
                    } else {
                        assert(m[k - 1] == y);
                    }
                }
            }
            assert(m.to_set() =~= s0.remove(name@));
        }
        self.names = names;
        true
    }

    /// How many names there are.
    pub fn len(&self) -> (r: usize)
        ensures
            r == self@.len(),
            self@.finite(),
    {
        proof {
            use_type_invariant(self);
            let l = text::texts(self.names@);
            broadcast use vstd::seq_lib::seq_to_set_is_finite;

            assert(l.no_duplicates()) by {
                assert forall|i: int, j: int| 0 <= i < j < l.len() implies l[i] != l[j] by {
                    assert(before(l[i], l[j]));
                    before_irreflexive(l[i]);
                }
            }
            l.unique_seq_to_set();
        }
        self.names.len()
    }

    /// The names of this set that are not in `other`.
    pub fn difference(&self, other: &NameSet) -> (r: NameSet)
        ensures
            r@ == self@.difference(other@),
    {
        let names: &Vec<String> = self.names();
        let ghost l = text::texts(names@);
        let mut out: NameSet = NameSet::new();
        let mut i: usize = 0;
        while i < names.len()
            invariant
                l == text::texts(names@),
                i <= names.len(),
                forall|x: Seq<char>| #[trigger]
                    out@.contains(x) <==> l.take(i as int).contains(x) && !other@.contains(x),
            decreases names.len() - i,
        {
            let ghost before_step = out@;
            if !other.contains(names[i].as_str()) {
                out.insert(names[i].clone());
            }
            proof {
                let t = l.take(i as int);
                let u = l.take(i + 1);
                assert(l[i as int] == names@[i as int]@);
                assert forall|x: Seq<char>| #[trigger] out@.contains(x) <==> u.contains(x)
                    && !other@.contains(x) by {
                    assert(before_step.contains(x) <==> t.contains(x) && !other@.contains(x));
                    assert(u =~= t.push(l[i as int]));
                    if t.contains(x) {
                        let k = t.index_of(x);
                        assert(u[k] == x);
                    }
                    if u.contains(x) {
                        let k = u.index_of(x);
                        if k < i {
                            assert(t[k] == x);
                        }
                    }
                    assert(u[i as int] == l[i as int]);
                }
            }
            i = i + 1;
        }
        proof {
            assert(l.take(l.len() as int) =~= l);
            assert(out@ =~= self@.difference(other@));
        }
        out
    }

    /// The names as a list of their own, in order.
    pub fn to_list(&self) -> (r: Vec<String>)
        ensures
            text::texts(r@) == in_order(self@),
            ordered_names(text::texts(r@), self@),
    {
        let names: &Vec<String> = self.names();
        proof {
            in_order_is(text::texts(names@), self@);
        }
        text::owned_list(names)
    }
}

impl Clone for NameSet {
    fn clone(&self) -> (r: Self)
        ensures
            r@ == self@,
    {
        proof {
            use_type_invariant(self);
        }
        let names: Vec<String> = text::owned_list(&self.names);
        NameSet { names }
    }
}

/// The set of the names in a list.
pub fn name_set(names: &Vec<String>) -> (r: NameSet)
    ensures
        r@ == text::texts(names@).to_set(),
{
    let ghost l = text::texts(names@);
    let mut out: NameSet = NameSet::new();
    let mut i: usize = 0;
    while i < names.len()
        invariant
            l == text::texts(names@),
            i <= names.len(),
            out@ == l.take(i as int).to_set(),
        decreases names.len() - i,
    {
        out.insert(names[i].clone());
        proof {
            let t = l.take(i as int);
            let u = l.take(i + 1);
            assert(u =~= t.push(l[i as int]));
            assert forall|x: Seq<char>| u.to_set().contains(x) <==> t.to_set().insert(
                l[i as int],
            ).contains(x) by {
                if t.contains(x) {
                    assert(u[t.index_of(x)] == x);
                }
                if u.contains(x) && x != l[i as int] {
                    assert(t[u.index_of(x)] == x);
                }
                assert(u[i as int] == l[i as int]);
            }
            assert(u.to_set() =~= t.to_set().insert(l[i as int]));
        }
        i = i + 1;
    }
    proof {
        assert(l.take(l.len() as int) =~= l);
    }
    out
}

/// Values by name, kept in the order of the names.
#[derive(Debug, PartialEq, Eq)]
pub struct NameMap<V> {
    names: Vec<String>,
    values: Vec<V>,
}

impl<V> View for NameMap<V> {
    type V = Map<Seq<char>, V>;

    closed spec fn view(&self) -> Map<Seq<char>, V> {
        entries_map(text::texts(self.names@), self.values@)
    }
}

/// The value of each name; the names are in order.
spec fn entries_map<V>(names: Seq<Seq<char>>, values: Seq<V>) -> Map<Seq<char>, V> {
    Map::new(|n: Seq<char>| names.contains(n), |n: Seq<char>| values[names.index_of(n)])
}

/// A name that is listed once stands where it is found.
proof fn increasing_index(names: Seq<Seq<char>>, i: int)
    requires
        increasing(names),
        0 <= i < names.len(),
    ensures
        names.index_of(names[i]) == i,
{
    let k = names.index_of(names[i]);
    assert(names.contains(names[i]));
    before_irreflexive(names[i]);
    if k < i {
        assert(before(names[k], names[i]));
    }
    if i < k {
        assert(before(names[i], names[k]));
    }
}

impl<V> NameMap<V> {
    #[verifier::type_invariant]
    spec fn in_order(self) -> bool {
        increasing(text::texts(self.names@)) && self.names@.len() == self.values@.len()
    }

    /// No names.
    pub fn new() -> (r: NameMap<V>)
        ensures
            r@ == Map::<Seq<char>, V>::empty(),
    {
        let r = NameMap { names: Vec::new(), values: Vec::new() };
        proof {
            assert(text::texts(r.names@) =~= Seq::<Seq<char>>::empty());
            assert(r@ =~= Map::<Seq<char>, V>::empty());
        }
        r
    }

    /// The names, in order, each once.
    pub fn names(&self) -> (r: &Vec<String>)
        ensures
            ordered_names(text::texts(r@), self@.dom()),
    {
        proof {
            use_type_invariant(self);
            let l = text::texts(self.names@);
            assert forall|x: Seq<char>| #[trigger] l.contains(x) <==> self@.dom().contains(x) by {
            }
        }
        &self.names
    }

    /// How many names there are.
    pub fn len(&self) -> (r: usize)
        ensures
            r == self@.dom().len(),
            self@.dom().finite(),
    {
        proof {
            use_type_invariant(self);
            let l = text::texts(self.names@);
            broadcast use vstd::seq_lib::seq_to_set_is_finite;

            assert(l.no_duplicates()) by {
                assert forall|i: int, j: int| 0 <= i < j < l.len() implies l[i] != l[j] by {
                    assert(before(l[i], l[j]));
                    before_irreflexive(l[i]);
                }
            }
            l.unique_seq_to_set();
            assert(self@.dom() =~= l.to_set());
        }
        self.names.len()
    }

    /// The place of `name`, if it is there.
    fn find(&self, name: &str) -> (r: Option<usize>)
        ensures
            match r {
                Some(i) => i < self.names@.len() && self.names@[i as int]@ == name@,
                None => !text::texts(self.names@).contains(name@),
            },
    {
        let mut i: usize = 0;
        let ghost l = text::texts(self.names@);
        while i < self.names.len()
            invariant
                i <= self.names@.len(),
                l == text::texts(self.names@),
                forall|k: int| 0 <= k < i ==> #[trigger] l[k] != name@,
            decreases self.names@.len() - i,
        {
            proof {
                assert(l[i as int] == self.names@[i as int]@);
            }
            if text::same(self.names[i].as_str(), name) {
                return Some(i);
            }
            i = i + 1;
        }
        None
    }

    /// The value of `name`, if it has one.
    pub fn get(&self, name: &str) -> (r: Option<&V>)
        ensures
            match r {
                Some(v) => self@.dom().contains(name@) && *v == self@[name@],
                None => !self@.dom().contains(name@),
            },
    {
        proof {
            use_type_invariant(self);
        }
        match self.find(name) {
            Some(i) => {
                proof {
                    let l = text::texts(self.names@);
                    assert(l[i as int] == name@);
                    increasing_index(l, i as int);
                    assert(l.contains(name@));
                }
                Some(&self.values[i])
            },
            None => None,
        }
    }

    /// Give `name` the value `value`, in place of any other.
    pub fn insert(&mut self, name: String, value: V)
        ensures
            final(self)@ == old(self)@.insert(name@, value),
    {
        proof {
            use_type_invariant(&*self);
        }
        let ghost l = text::texts(self.names@);
        let ghost vs = self.values@;
        let ghost m0 = self@;
        let found: Option<usize> = self.find(name.as_str());
        let mut old_map: NameMap<V> = NameMap::new();
        std::mem::swap(self, &mut old_map);
        let NameMap { mut names, mut values } = old_map;
        match found {
            Some(i) => {
                proof {
                    assert(l[i as int] == name@);
                    increasing_index(l, i as int);
                }
                values.set(i, value);
                proof {
                    let m = entries_map(l, values@);
                    assert forall|n: Seq<char>| l.contains(n) implies m[n] == m0.insert(
                        name@,
                        value,
                    )[n] by {
                        let k = l.index_of(n);
                        assert(l[k] == n);
                    }
                    assert(m =~= m0.insert(name@, value));
                }
            },
            None => {
                let i: usize = NameSet::place(&names, name.as_str());
                let ghost x = name@;
                names.insert(i, name);
                values.insert(i, value);
                proof {
                    let m = text::texts(names@);
                    assert(m =~= l.insert(i as int, x));
                    inserted_increasing(l, x, i as int);
                    let mm = entries_map(m, values@);
                    assert forall|n: Seq<char>| #[trigger] m.contains(n) <==> (l.contains(n) || n
                        == x) by {
                        if m.contains(n) {
                            let k = m.index_of(n);
                            if k < i {
                                assert(l[k] == n);
                            } else if k > i {
                                assert(l[k - 1] == n);
                            }
                        }
                        if l.contains(n) {
                            let k = l.index_of(n);
                            if k < i {
                                assert(m[k] == n);
                            } else {
                                assert(m[k + 1] == n);
                            }
                        }
                        assert(m[i as int] == x);
                    }
                    assert forall|n: Seq<char>| m.contains(n) implies mm[n] == m0.insert(
                        x,
                        value,
                    )[n] by {
                        if n == x {
                            assert(m[i as int] == x);
                            increasing_index(m, i as int);
                        } else {
                            assert(l.contains(n));
                            let k = l.index_of(n);
                            increasing_index(l, k);
                            if k < i {
                                assert(m[k] == n);
                                increasing_index(m, k);
                            } else {
                                assert(m[k + 1] == n);
                                increasing_index(m, k + 1);
                            }
                        }
                    }
                    assert(mm =~= m0.insert(x, value));
                }
            },
        }
        *self = NameMap { names, values };
    }
}

/// A name put in its place keeps the order.
proof fn inserted_increasing(l: Seq<Seq<char>>, x: Seq<char>, i: int)
    requires
        increasing(l),
        0 <= i <= l.len(),
        !l.contains(x),
        forall|k: int| 0 <= k < i ==> before(#[trigger] l[k], x),
        forall|k: int| i <= k < l.len() ==> !before(#[trigger] l[k], x),
    ensures
        increasing(l.insert(i, x)),
{
    let m = l.insert(i, x);
    assert forall|p: int, q: int| 0 <= p < q < m.len() implies before(
        #[trigger] m[p],
        #[trigger] m[q],
    ) by {
        if q == i {
            assert(before(l[p], x));
        } else if p == i {
            assert(!before(l[q - 1], x));
            assert(l[q - 1] != x);
            before_total(l[q - 1], x);
        } else {
            let pp = if p < i { p } else { p - 1 };
            let qq = if q < i { q } else { q - 1 };
            assert(before(l[pp], l[qq]));
        }
    }
}

/// Names come in the order of their first different characters, and the
/// beginning of a name before the name.
pub proof fn names_go_by_their_first_difference(
    front: Seq<char>,
    x: char,
    a: Seq<char>,
    y: char,
    b: Seq<char>,
)
    requires
        (x as u32) < (y as u32),
    ensures
        before(front + seq![x] + a, front + seq![y] + b),
        !before(front + seq![y] + b, front + seq![x] + a),
        before(front, front + seq![x] + a),
    decreases front.len(),
{
    let s = front + seq![x] + a;
    let t = front + seq![y] + b;
    if front.len() > 0 {
        let f = front.drop_first();
        names_go_by_their_first_difference(f, x, a, y, b);
        assert(s.drop_first() =~= f + seq![x] + a);
        assert(t.drop_first() =~= f + seq![y] + b);
        assert(s[0] == front[0] && t[0] == front[0]);
    } else {
        assert(s[0] == x && t[0] == y);
    }
}

} // verus!
