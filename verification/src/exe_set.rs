//! A set of executable names (strings), held as a vector in which no name occurs twice.
use vstd::prelude::*;

verus! {

/// The character sequences of a sequence of strings.
pub open spec fn views_of(v: Seq<String>) -> Seq<Seq<char>> {
    Seq::new(v.len(), |i: int| v[i]@)
}

/// A finite set of strings; the vector never holds the same name twice.
pub struct ExeSet {
    items: Vec<String>,
}

impl ExeSet {
    /// The names, in storage order.
    pub closed spec fn names(&self) -> Seq<Seq<char>> {
        views_of(self.items@)
    }

    #[verifier::type_invariant]
    closed spec fn distinct_names(&self) -> bool {
        self.names().no_duplicates()
    }
}

impl View for ExeSet {
    type V = Set<Seq<char>>;

    open spec fn view(&self) -> Set<Seq<char>> {
        self.names().to_set()
    }
}

proof fn lemma_push_keeps_distinct(s: Seq<Seq<char>>, x: Seq<char>)
    requires
        s.no_duplicates(),
        !s.contains(x),
    ensures
        s.push(x).no_duplicates(),
{
    let t = s.push(x);
    assert forall|a: int, b: int| 0 <= a < t.len() && 0 <= b < t.len() && a != b implies t[a]
        != t[b] by {
        if a == s.len() {
            assert(s[b] == t[b]);
        } else if b == s.len() {
            assert(s[a] == t[a]);
        }
    }
}

proof fn lemma_remove_keeps_distinct(s: Seq<Seq<char>>, i: int)
    requires
        s.no_duplicates(),
        0 <= i < s.len(),
    ensures
        s.remove(i).no_duplicates(),
        s.remove(i).to_set() == s.to_set().remove(s[i]),
{
    let t = s.remove(i);
    assert forall|a: int, b: int| 0 <= a < t.len() && 0 <= b < t.len() && a != b implies t[a]
        != t[b] by {
        let oa = if a < i { a } else { a + 1 };
        let ob = if b < i { b } else { b + 1 };
        assert(t[a] == s[oa]);
        assert(t[b] == s[ob]);
    }
    assert forall|x: Seq<char>| t.to_set().contains(x) <==> s.to_set().remove(s[i]).contains(x) by {
        if t.to_set().contains(x) {
            let a = choose|a: int| 0 <= a < t.len() && t[a] == x;
            let oa = if a < i { a } else { a + 1 };
            assert(s[oa] == x);
            assert(oa != i);
        }
        if s.to_set().remove(s[i]).contains(x) {
            let b = choose|b: int| 0 <= b < s.len() && s[b] == x;
            assert(b != i);
            let tb = if b < i { b } else { b - 1 };
            assert(t[tb] == x);
        }
    }
    assert(t.to_set() =~= s.to_set().remove(s[i]));
}

pub proof fn lemma_push_to_set(s: Seq<Seq<char>>, x: Seq<char>)
    ensures
        s.push(x).to_set() == s.to_set().insert(x),
{
    let t = s.push(x);
    assert forall|y: Seq<char>| t.to_set().contains(y) <==> s.to_set().insert(y).contains(y) && (
    s.to_set().contains(y) || y == x) by {
        if t.to_set().contains(y) {
            let a = choose|a: int| 0 <= a < t.len() && t[a] == y;
            if a < s.len() {
                assert(s[a] == y);
            }
        }
        if s.to_set().contains(y) {
            let b = choose|b: int| 0 <= b < s.len() && s[b] == y;
            assert(t[b] == y);
        }
        if y == x {
            assert(t[s.len() as int] == y);
        }
    }
    assert(t.to_set() =~= s.to_set().insert(x));
}

/// Is `s` one of the strings of `v`?
pub fn vec_contains_str(v: &Vec<String>, s: &str) -> (r: bool)
    ensures
        r == views_of(v@).contains(s@),
{
    let key = String::from_str(s);
    let mut i: usize = 0;
    while i < v.len()
        invariant
            i <= v.len(),
            key@ == s@,
            forall|k: int| 0 <= k < i ==> (#[trigger] v@[k])@ != s@,
        decreases v.len() - i,
    {
        if v[i] == key {
            assert(views_of(v@)[i as int] == s@);
            return true;
        }
        i = i + 1;
    }
    assert forall|k: int| 0 <= k < views_of(v@).len() implies views_of(v@)[k] != s@ by {
        assert((v@[k])@ != s@);
    }
    false
}

/// The position of `s` in `v`, if it occurs.
fn vec_position_str(v: &Vec<String>, s: &str) -> (r: Option<usize>)
    ensures
        match r {
            Some(i) => i < v.len() && (v@[i as int])@ == s@,
            None => !views_of(v@).contains(s@),
        },
{
    let key = String::from_str(s);
    let mut i: usize = 0;
    while i < v.len()
        invariant
            i <= v.len(),
            key@ == s@,
            forall|k: int| 0 <= k < i ==> (#[trigger] v@[k])@ != s@,
        decreases v.len() - i,
    {
        if v[i] == key {
            return Some(i);
        }
        i = i + 1;
    }
    assert forall|k: int| 0 <= k < views_of(v@).len() implies views_of(v@)[k] != s@ by {
        assert((v@[k])@ != s@);
    }
    None
}

impl ExeSet {
    /// The empty set.
    pub fn new() -> (r: ExeSet)
        ensures
            r@ == Set::<Seq<char>>::empty(),
            r.names().len() == 0,
    {
        let r = ExeSet { items: Vec::new() };
        assert(r.names() =~= Seq::<Seq<char>>::empty());
        assert(r@ =~= Set::<Seq<char>>::empty());
        r
    }

    /// The number of names.
    pub fn len(&self) -> (n: usize)
        ensures
            n == self.names().len(),
    {
        self.items.len()
    }

    /// The set holds no name.
    pub fn is_empty(&self) -> (b: bool)
        ensures
            b == (self@ == Set::<Seq<char>>::empty()),
            b == (self.names().len() == 0),
    {
        let b = self.items.len() == 0;
        if !b {
            assert(self@.contains(self.names()[0]));
        } else {
            assert(self.names() =~= Seq::<Seq<char>>::empty());
            assert(self@ =~= Set::<Seq<char>>::empty());
        }
        b
    }

    /// The `i`-th name in storage order.
    pub fn get(&self, i: usize) -> (s: &String)
        requires
            i < self.names().len(),
        ensures
            s@ == self.names()[i as int],
    {
        &self.items[i]
    }

    /// Membership.
    pub fn contains(&self, s: &str) -> (r: bool)
        ensures
            r == self@.contains(s@),
    {
        vec_contains_str(&self.items, s)
    }

    /// Adds `s`; true when it was not there before (as `HashSet::insert`).
    pub fn insert(&mut self, s: String) -> (added: bool)
        ensures
            final(self)@ == old(self)@.insert(s@),
            added == !old(self)@.contains(s@),
    {
        proof {
            use_type_invariant(&*self);
        }
        if self.contains(s.as_str()) {
            assert(old(self)@.insert(s@) =~= old(self)@);
            return false;
        }
        let ghost old_names = self.names();
        let ghost sv = s@;
        let mut items: Vec<String> = Vec::new();
        std::mem::swap(&mut items, &mut self.items);
        items.push(s);
        proof {
            assert(views_of(items@) =~= old_names.push(sv));
            lemma_push_keeps_distinct(old_names, sv);
            lemma_push_to_set(old_names, sv);
        }
        self.items = items;
        true
    }

    /// Removes `s`; true when it was there before (as `HashSet::remove`).
    pub fn remove(&mut self, s: &str) -> (removed: bool)
        ensures
            final(self)@ == old(self)@.remove(s@),
            removed == old(self)@.contains(s@),
    {
        proof {
            use_type_invariant(&*self);
        }
        match vec_position_str(&self.items, s) {
            None => {
                assert(old(self)@.remove(s@) =~= old(self)@);
                false
            },
            Some(i) => {
                let ghost old_names = self.names();
                let mut items: Vec<String> = Vec::new();
                std::mem::swap(&mut items, &mut self.items);
                items.remove(i);
                proof {
                    assert(views_of(items@) =~= old_names.remove(i as int));
                    assert(old_names[i as int] == s@);
                    lemma_remove_keeps_distinct(old_names, i as int);
                }
                self.items = items;
                true
            },
        }
    }

    /// Removes every name.
    pub fn clear(&mut self)
        ensures
            final(self)@ == Set::<Seq<char>>::empty(),
    {
        let items: Vec<String> = Vec::new();
        assert(views_of(items@) =~= Seq::<Seq<char>>::empty());
        self.items = items;
        assert(self@ =~= Set::<Seq<char>>::empty());
    }

    /// The set of the given names.
    pub fn from_names(names: Vec<String>) -> (r: ExeSet)
        ensures
            r@ == views_of(names@).to_set(),
    {
        let mut r = ExeSet::new();
        let mut i: usize = 0;
        let ghost all = views_of(names@);
        while i < names.len()
            invariant
                i <= names.len(),
                all == views_of(names@),
                r@ == all.subrange(0, i as int).to_set(),
            decreases names.len() - i,
        {
            let s = names[i].clone();
            r.insert(s);
            proof {
                assert(all.subrange(0, i + 1) =~= all.subrange(0, i as int).push(all[i as int]));
                lemma_push_to_set(all.subrange(0, i as int), all[i as int]);
            }
            i = i + 1;
        }
        assert(all.subrange(0, names.len() as int) =~= all);
        r
    }

    /// The names, each once, in storage order.
    pub fn to_vec(&self) -> (v: Vec<String>)
        ensures
            views_of(v@) == self.names(),
            views_of(v@).to_set() == self@,
    {
        let mut v: Vec<String> = Vec::new();
        let mut i: usize = 0;
        while i < self.items.len()
            invariant
                i <= self.items.len(),
                views_of(v@) == self.names().subrange(0, i as int),
            decreases self.items.len() - i,
        {
            let t = self.items[i].clone();
            let ghost before = v@;
            v.push(t);
            proof {
                assert(before.len() == views_of(before).len());
                assert(before.len() == i);
                assert(v@ == before.push(t));
                assert(v@.len() == i + 1);
                assert forall|k: int| 0 <= k < i + 1 implies views_of(v@)[k] == self.names()[k] by {
                    if k < i {
                        assert(views_of(before)[k] == self.names().subrange(0, i as int)[k]);
                        assert(v@[k] == before[k]);
                    } else {
                        assert(v@[k] == t);
                    }
                }
                assert(views_of(v@) =~= self.names().subrange(0, i + 1));
            }
            i = i + 1;
        }
        assert(self.names().subrange(0, self.items.len() as int) =~= self.names());
        v
    }

    /// A copy holding the same names.
    pub fn duplicate(&self) -> (r: ExeSet)
        ensures
            r@ == self@,
            r.names() == self.names(),
    {
        proof {
            use_type_invariant(self);
        }
        let v = self.to_vec();
        ExeSet { items: v }
    }
}

} // verus!
