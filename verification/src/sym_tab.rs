//! Symbol tables: the scopes of a program while it is resolved.
//!
//! A scope maps names to slots. Scopes nest: the table is a stack of them,
//! the global scope at the bottom and the innermost on top, and mirrors
//! the chain of frames that exists when the code runs. The address of a
//! name is its slot in the innermost scope that has it and the number of
//! scopes between that scope and the top.
use vstd::prelude::*;

verus! {

/// A stack of scopes. A scope is the list of its names; a name's slot is
/// its place in the list. Where a scope lists a name twice, the later
/// place is its slot.
pub struct SymTab {
    scopes: Vec<Vec<String>>,
}

impl View for SymTab {
    type V = Seq<Seq<Seq<char>>>;

    closed spec fn view(&self) -> Seq<Seq<Seq<char>>> {
        Seq::new(self.scopes@.len(), |i: int| names_view(self.scopes@[i]@))
    }
}

/// The names of a scope, each as its characters.
pub open spec fn names_view(names: Seq<String>) -> Seq<Seq<char>> {
    Seq::new(names.len(), |i: int| names[i]@)
}

/// The slot of `name` among the first `n` names of a scope: the last
/// place at which it stands.
pub open spec fn slot_of(names: Seq<Seq<char>>, name: Seq<char>, n: nat) -> Option<nat>
    decreases n,
{
    if n == 0 || n > names.len() {
        None
    } else if names[n - 1] == name {
        Some((n - 1) as nat)
    } else {
        slot_of(names, name, (n - 1) as nat)
    }
}

/// The address `(slot, depth)` of `name` seen from the innermost of the
/// first `n` scopes.
pub open spec fn lookup_from(scopes: Seq<Seq<Seq<char>>>, name: Seq<char>, n: nat) -> Option<
    (nat, nat),
>
    decreases n,
{
    if n == 0 || n > scopes.len() {
        None
    } else {
        match slot_of(scopes[n - 1], name, scopes[n - 1].len()) {
            Some(slot) => Some((slot, 0nat)),
            None => match lookup_from(scopes, name, (n - 1) as nat) {
                Some((slot, depth)) => Some((slot, (depth + 1) as nat)),
                None => None,
            },
        }
    }
}

/// The address `(slot, depth)` of `name`: the slot in the innermost
/// scope that has the name, and the number of scopes above that one.
pub open spec fn lookup(scopes: Seq<Seq<Seq<char>>>, name: Seq<char>) -> Option<(nat, nat)> {
    lookup_from(scopes, name, scopes.len())
}

/// The table after `name` was added to the innermost scope: unchanged
/// where the scope has the name, or where there is no scope.
pub open spec fn with_name(scopes: Seq<Seq<Seq<char>>>, name: Seq<char>) -> Seq<Seq<Seq<char>>> {
    if scopes.len() == 0 {
        scopes
    } else if slot_of(scopes.last(), name, scopes.last().len()) is Some {
        scopes
    } else {
        scopes.update(scopes.len() - 1, scopes.last().push(name))
    }
}

/// The slot that `name` has in the innermost scope once it was added.
pub open spec fn slot_after_add(scopes: Seq<Seq<Seq<char>>>, name: Seq<char>) -> nat {
    if scopes.len() == 0 {
        0
    } else {
        match slot_of(scopes.last(), name, scopes.last().len()) {
            Some(slot) => slot,
            None => scopes.last().len(),
        }
    }
}

/// An address as specifications speak of it.
pub open spec fn addr_view(a: Option<(usize, usize)>) -> Option<(nat, nat)> {
    match a {
        Some((slot, depth)) => Some((slot as nat, depth as nat)),
        None => None,
    }
}

/// An address that `lookup_from` finds lies within the scopes searched: the
/// depth is below their number and the slot is a place in the scope at
/// that depth.
pub proof fn lemma_lookup_in_range(scopes: Seq<Seq<Seq<char>>>, name: Seq<char>, n: nat)
    requires
        n <= scopes.len(),
    ensures
        lookup_from(scopes, name, n) matches Some((slot, depth)) ==> depth < n && slot
            < scopes[n - 1 - depth].len() && scopes[n - 1 - depth][slot as int] == name,
    decreases n,
{
    if n > 0 {
        lemma_slot_in_range(scopes[n - 1], name, scopes[n - 1].len());
        lemma_lookup_in_range(scopes, name, (n - 1) as nat);
    }
}

/// A slot that `slot_of` finds is a place among the names searched, and the
/// name stands there.
pub proof fn lemma_slot_in_range(names: Seq<Seq<char>>, name: Seq<char>, n: nat)
    requires
        n <= names.len(),
    ensures
        slot_of(names, name, n) matches Some(slot) ==> slot < n && names[slot as int] == name,
    decreases n,
{
    if n > 0 && names[n - 1] != name {
        lemma_slot_in_range(names, name, (n - 1) as nat);
    }
}

fn copy_names(names: &[String]) -> (r: Vec<String>)
    ensures
        names_view(r@) == names_view(names@),
{
    let mut out: Vec<String> = Vec::new();
    let mut i: usize = 0;
    while i < names.len()
        invariant
            i <= names.len(),
            out@.len() == i,
            forall|k: int| 0 <= k < i ==> out@[k]@ == names@[k]@,
        decreases names.len() - i,
    {
        out.push(names[i].clone());
        i += 1;
    }
    assert(names_view(out@) =~= names_view(names@));
    out
}

fn find_slot(names: &Vec<String>, name: &String) -> (r: Option<usize>)
    ensures
        match r {
            Some(slot) => slot_of(names_view(names@), name@, names@.len()) == Some(slot as nat),
            None => slot_of(names_view(names@), name@, names@.len()) is None,
        },
{
    let mut n: usize = names.len();
    while n > 0
        invariant
            n <= names.len(),
            slot_of(names_view(names@), name@, names@.len()) == slot_of(
                names_view(names@),
                name@,
                n as nat,
            ),
        decreases n,
    {
        if names[n - 1] == *name {
            return Some(n - 1);
        }
        n -= 1;
    }
    None
}

impl SymTab {
    /// A table that holds the global scope, without names.
    pub fn new_global() -> (r: SymTab)
        ensures
            r@ == seq![Seq::<Seq<char>>::empty()],
    {
        let mut scopes: Vec<Vec<String>> = Vec::new();
        scopes.push(Vec::new());
        let r = SymTab { scopes };
        assert(r@ =~= seq![Seq::<Seq<char>>::empty()]) by {
            assert(r@[0] =~= Seq::<Seq<char>>::empty());
        }
        r
    }

    /// The table `parent` with one more scope, which holds `names`.
    pub fn new(parent: SymTab, names: &[String]) -> (r: SymTab)
        ensures
            r@ == parent@.push(names_view(names@)),
    {
        let mut r = parent;
        r.push(names);
        r
    }

    /// Enters a scope that holds `names`.
    pub fn push(&mut self, names: &[String])
        ensures
            final(self)@ == old(self)@.push(names_view(names@)),
    {
        self.scopes.push(copy_names(names));
        assert(self@ =~= old(self)@.push(names_view(names@)));
    }

    /// Leaves the innermost scope.
    pub fn pop(&mut self)
        ensures
            final(self)@ == if old(self)@.len() > 0 {
                old(self)@.drop_last()
            } else {
                old(self)@
            },
    {
        let _ = self.scopes.pop();
        proof {
            if old(self)@.len() > 0 {
                assert(self@ =~= old(self)@.drop_last());
            } else {
                assert(self@ =~= old(self)@);
            }
        }
    }

    /// The names of the scope `scope`, counted from the global scope,
    /// each at its slot.
    pub fn names(&self, scope: usize) -> (r: Option<&Vec<String>>)
        ensures
            scope < self@.len() ==> (r matches Some(names) && names_view(names@) == self@[
                scope as int
            ]),
            scope >= self@.len() ==> r is None,
    {
        if scope < self.scopes.len() {
            Some(&self.scopes[scope])
        } else {
            None
        }
    }

    /// The number of scopes.
    pub fn depth(&self) -> (r: usize)
        ensures
            r == self@.len(),
    {
        self.scopes.len()
    }

    /// Adds `name` to the innermost scope, unless the scope has it, and
    /// returns its slot.
    pub fn add_name(&mut self, name: &str) -> (r: usize)
        ensures
            final(self)@ == with_name(old(self)@, name@),
            r == slot_after_add(old(self)@, name@),
    {
        let n = self.scopes.len();
        if n == 0 {
            return 0;
        }
        let owned = String::from_str(name);
        match find_slot(&self.scopes[n - 1], &owned) {
            Some(slot) => slot,
            None => {
                let new_index = self.scopes[n - 1].len();
                self.scopes[n - 1].push(owned);
                assert(self@ =~= with_name(old(self)@, name@)) by {
                    assert(self@[n - 1] =~= old(self)@[n - 1].push(name@));
                }
                new_index
            },
        }
    }

    /// The address `(slot, depth)` of `name`, or `None` where no scope has
    /// it.
    pub fn get_name(&self, name: &str) -> (r: Option<(usize, usize)>)
        ensures
            addr_view(r) == lookup(self@, name@),
    {
        self.get_name_internal(name, 0)
    }

    fn get_name_internal(&self, name: &str, env_index: usize) -> (r: Option<(usize, usize)>)
        requires
            env_index == 0,
        ensures
            addr_view(r) == lookup(self@, name@),
    {
        let owned = String::from_str(name);
        let mut n: usize = self.scopes.len();
        let mut depth: usize = env_index;
        while n > 0
            invariant
                n <= self.scopes.len(),
                depth == self.scopes.len() - n,
                owned@ == name@,
                lookup(self@, name@) == match lookup_from(self@, name@, n as nat) {
                    Some((slot, d)) => Some((slot, (d + depth) as nat)),
                    None => None,
                },
            decreases n,
        {
            match find_slot(&self.scopes[n - 1], &owned) {
                Some(slot) => {
                    return Some((slot, depth));
                },
                None => {},
            }
            n -= 1;
            depth += 1;
        }
        None
    }
}

} // verus!
