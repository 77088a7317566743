//! The operators that the parser knows: their names, how tightly they bind
//! and to which side they associate.
use vstd::prelude::*;

verus! {

#[derive(Clone, Copy, Debug, PartialEq, Eq, Structural)]
pub enum Assoc {
    Left,
    Right,
    Prefix,
}

#[derive(Debug)]
pub struct Operator {
    pub name: String,
    pub prec: i32,
    pub assoc: Assoc,
}

impl Clone for Operator {
    fn clone(&self) -> (r: Self)
        ensures
            r == *self,
    {
        Operator { name: self.name.clone(), prec: self.prec, assoc: self.assoc }
    }
}

/// The operators, prefix and binary apart. Where a name was added more
/// than once, the operator added last is the one that the name has.
pub struct OpTable {
    prefix: Vec<Operator>,
    binary: Vec<Operator>,
}

/// The operator that `name` has among the first `n` of `ops`: the last of
/// them with that name.
pub open spec fn find_op(ops: Seq<Operator>, name: Seq<char>, n: nat) -> Option<Operator>
    decreases n,
{
    if n == 0 || n > ops.len() {
        None
    } else if ops[n - 1].name@ == name {
        Some(ops[n - 1])
    } else {
        find_op(ops, name, (n - 1) as nat)
    }
}

fn find(ops: &Vec<Operator>, name: &str) -> (r: Option<Operator>)
    ensures
        r == find_op(ops@, name@, ops@.len()),
{
    let owned = String::from_str(name);
    let mut n: usize = ops.len();
    while n > 0
        invariant
            n <= ops.len(),
            owned@ == name@,
            find_op(ops@, name@, ops@.len()) == find_op(ops@, name@, n as nat),
        decreases n,
    {
        if ops[n - 1].name == owned {
            return Some(ops[n - 1].clone());
        }
        n -= 1;
    }
    None
}

/// The operators of `ops`, as specifications speak of them: name,
/// precedence and associativity.
pub open spec fn op_views(ops: Seq<Operator>) -> Seq<(Seq<char>, i32, Assoc)> {
    ops.map_values(|o: Operator| (o.name@, o.prec, o.assoc))
}

/// Whether the table `after` is the table `before` with one more operator,
/// added last among the prefix operators or among the others.
pub open spec fn added_op(
    before: OpTable,
    after: OpTable,
    name: Seq<char>,
    prec: i32,
    assoc: Assoc,
) -> bool {
    &&& assoc == Assoc::Prefix ==> after.binary_ops() == before.binary_ops()
        && after.prefix_ops().len() == before.prefix_ops().len() + 1
        && after.prefix_ops().drop_last() == before.prefix_ops() && op_views(after.prefix_ops())
        == op_views(before.prefix_ops()).push((name, prec, assoc))
    &&& assoc != Assoc::Prefix ==> after.prefix_ops() == before.prefix_ops()
        && after.binary_ops().len() == before.binary_ops().len() + 1
        && after.binary_ops().drop_last() == before.binary_ops() && op_views(after.binary_ops())
        == op_views(before.binary_ops()).push((name, prec, assoc))
}

impl OpTable {
    /// The prefix operators, in the order added.
    pub closed spec fn prefix_ops(&self) -> Seq<Operator> {
        self.prefix@
    }

    /// The binary operators, in the order added.
    pub closed spec fn binary_ops(&self) -> Seq<Operator> {
        self.binary@
    }

    /// The prefix operator that `name` has.
    pub open spec fn prefix_of(&self, name: Seq<char>) -> Option<Operator> {
        find_op(self.prefix_ops(), name, self.prefix_ops().len())
    }

    /// The binary operator that `name` has.
    pub open spec fn binary_of(&self, name: Seq<char>) -> Option<Operator> {
        find_op(self.binary_ops(), name, self.binary_ops().len())
    }

    /// A table without operators.
    pub fn new() -> (r: OpTable)
        ensures
            r.prefix_ops() == Seq::<Operator>::empty(),
            r.binary_ops() == Seq::<Operator>::empty(),
    {
        OpTable { prefix: Vec::new(), binary: Vec::new() }
    }

    /// Adds an operator. With `Assoc::Prefix` it is a prefix operator,
    /// else a binary one. It takes the place of an operator of the same
    /// kind and name.
    pub fn add(&mut self, name: &str, prec: i32, assoc: Assoc)
        ensures
            added_op(*old(self), *final(self), name@, prec, assoc),
    {
        let op = Operator { name: String::from_str(name), prec, assoc };
        match assoc {
            Assoc::Left | Assoc::Right => {
                self.binary.push(op);
                assert(self.binary@.drop_last() =~= old(self).binary@);
                assert(op_views(self.binary@) =~= op_views(old(self).binary@).push(
                    (name@, prec, assoc),
                ));
            },
            Assoc::Prefix => {
                self.prefix.push(op);
                assert(self.prefix@.drop_last() =~= old(self).prefix@);
                assert(op_views(self.prefix@) =~= op_views(old(self).prefix@).push(
                    (name@, prec, assoc),
                ));
            },
        }
    }

    /// Whether `name` is a binary operator.
    pub fn is_binary(&self, name: &str) -> (r: bool)
        ensures
            r == self.binary_of(name@) is Some,
    {
        find(&self.binary, name).is_some()
    }

    /// Whether `name` is a prefix operator.
    pub fn is_prefix(&self, name: &str) -> (r: bool)
        ensures
            r == self.prefix_of(name@) is Some,
    {
        find(&self.prefix, name).is_some()
    }

    /// Whether `name` is an operator of either kind.
    pub fn is_operator(&self, name: &str) -> (r: bool)
        ensures
            r == (self.binary_of(name@) is Some || self.prefix_of(name@) is Some),
    {
        self.is_binary(name) || self.is_prefix(name)
    }

    /// The binary operator called `name`.
    pub fn get_binary(&self, name: &str) -> (r: Option<Operator>)
        ensures
            r == self.binary_of(name@),
    {
        find(&self.binary, name)
    }

    /// The prefix operator called `name`.
    pub fn get_prefix(&self, name: &str) -> (r: Option<Operator>)
        ensures
            r == self.prefix_of(name@),
    {
        find(&self.prefix, name)
    }
}

/// After an operator was added under a name, the name has that operator,
/// and every other name has the operator it had.
pub proof fn lemma_find_after_add(ops: Seq<Operator>, op: Operator, name: Seq<char>)
    ensures
        find_op(ops.push(op), name, ops.len() + 1) == if op.name@ == name {
            Some(op)
        } else {
            find_op(ops, name, ops.len())
        },
{
    let after = ops.push(op);
    if op.name@ != name {
        lemma_find_same_prefix(ops, after, name, ops.len());
    }
}

/// What a name has among the first `n` operators depends on those
/// operators alone.
pub proof fn lemma_find_same_prefix(a: Seq<Operator>, b: Seq<Operator>, name: Seq<char>, n: nat)
    requires
        n <= a.len(),
        n <= b.len(),
        forall|i: int| 0 <= i < n ==> a[i] == b[i],
    ensures
        find_op(a, name, n) == find_op(b, name, n),
    decreases n,
{
    if n > 0 {
        lemma_find_same_prefix(a, b, name, (n - 1) as nat);
    }
}

} // verus!
