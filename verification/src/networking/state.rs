use vstd::prelude::*;
use crate::simulation::component::Id;

verus! {

/// A transport address in plain form: the numeric host address and the
/// port. An IPv4 host is carried as its 32-bit value widened; this layer
/// only ever compares addresses for equality.
#[derive(Clone, Copy, Debug, PartialEq, Eq, Structural)]
pub struct Address {
    pub host: u128,
    pub port: u16,
}

/// Why the registry refused an operation.
#[derive(Clone, Copy, Debug, PartialEq, Eq, Structural)]
pub enum RegistryError {
    /// The address already has an identifier assigned.
    AddressInUse,
    /// The identifier offered for the address is already taken.
    IdentifierInUse,
}

/// Whether some entry of `m` carries the address `a`.
pub open spec fn has_addr(m: Seq<(Address, Id)>, a: Address) -> bool {
    exists|i: int| 0 <= i < m.len() && m[i].0 == a
}

/// Whether some entry of `m` carries the identifier `id`.
pub open spec fn has_id(m: Seq<(Address, Id)>, id: Id) -> bool {
    exists|i: int| 0 <= i < m.len() && m[i].1 == id
}

/// The identifier the first entry for `a` carries, if any; under
/// [`State::wf`] there is at most one entry for `a`.
pub open spec fn id_for(m: Seq<(Address, Id)>, a: Address) -> Option<Id>
    decreases m.len(),
{
    if m.len() == 0 {
        None
    } else if m[0].0 == a {
        Some(m[0].1)
    } else {
        id_for(m.drop_first(), a)
    }
}

/// The address the first entry for `id` carries, if any.
pub open spec fn addr_for(m: Seq<(Address, Id)>, id: Id) -> Option<Address>
    decreases m.len(),
{
    if m.len() == 0 {
        None
    } else if m[0].1 == id {
        Some(m[0].0)
    } else {
        addr_for(m.drop_first(), id)
    }
}

/// A found entry before which its address never occurs is what `id_for`
/// returns; symmetrically for `addr_for`.
proof fn lemma_lookup_at(m: Seq<(Address, Id)>, i: int)
    requires
        0 <= i < m.len(),
    ensures
        (forall|k: int| 0 <= k < i ==> (#[trigger] m[k]).0 != m[i].0) ==> id_for(m, m[i].0)
            == Some(m[i].1),
        (forall|k: int| 0 <= k < i ==> (#[trigger] m[k]).1 != m[i].1) ==> addr_for(m, m[i].1)
            == Some(m[i].0),
    decreases i,
{
    if i > 0 {
        lemma_lookup_at(m.drop_first(), i - 1);
        assert(m.drop_first()[i - 1] == m[i]);
        assert(forall|k: int| 0 <= k < i - 1 ==> #[trigger] m.drop_first()[k] == m[k + 1]);
    }
}

/// A lookup that misses everywhere returns nothing.
proof fn lemma_lookup_none(m: Seq<(Address, Id)>, a: Address, id: Id)
    ensures
        (forall|k: int| 0 <= k < m.len() ==> (#[trigger] m[k]).0 != a) ==> id_for(m, a) is None,
        (forall|k: int| 0 <= k < m.len() ==> (#[trigger] m[k]).1 != id) ==> addr_for(m, id) is None,
    decreases m.len(),
{
    if m.len() > 0 {
        lemma_lookup_none(m.drop_first(), a, id);
        assert(forall|k: int| 0 <= k < m.len() - 1 ==> #[trigger] m.drop_first()[k] == m[k + 1]);
    }
}

/// A successful lookup names an entry of the table.
pub proof fn lemma_lookup_witness(m: Seq<(Address, Id)>, a: Address, id: Id)
    ensures
        id_for(m, a) matches Some(x) ==> exists|i: int|
            0 <= i < m.len() && #[trigger] m[i] == (a, x),
        addr_for(m, id) matches Some(y) ==> exists|i: int|
            0 <= i < m.len() && #[trigger] m[i] == (y, id),
    decreases m.len(),
{
    if m.len() > 0 {
        lemma_lookup_witness(m.drop_first(), a, id);
        if m[0].0 != a && id_for(m, a) is Some {
            let x = id_for(m, a)->Some_0;
            let i = choose|i: int| 0 <= i < m.drop_first().len() && #[trigger] m.drop_first()[i]
                == (a, x);
            assert(m[i + 1] == (a, x));
        }
        if m[0].1 != id && addr_for(m, id) is Some {
            let y = addr_for(m, id)->Some_0;
            let i = choose|i: int| 0 <= i < m.drop_first().len() && #[trigger] m.drop_first()[i]
                == (y, id);
            assert(m[i + 1] == (y, id));
        }
    }
}

/// How a lookup behaves on a table extended at the back: an existing entry
/// still wins, otherwise the new entry answers.
pub proof fn lemma_lookup_push(m: Seq<(Address, Id)>, p: (Address, Id), a: Address, id: Id)
    ensures
        id_for(m.push(p), a) == (match id_for(m, a) {
            Some(x) => Some(x),
            None => if p.0 == a { Some(p.1) } else { None::<Id> },
        }),
        addr_for(m.push(p), id) == (match addr_for(m, id) {
            Some(y) => Some(y),
            None => if p.1 == id { Some(p.0) } else { None::<Address> },
        }),
    decreases m.len(),
{
    if m.len() == 0 {
        reveal_with_fuel(id_for, 2);
        reveal_with_fuel(addr_for, 2);
        assert(m.push(p)[0] == p);
        assert(m.push(p).drop_first() =~= Seq::<(Address, Id)>::empty());
    } else {
        lemma_lookup_push(m.drop_first(), p, a, id);
        assert(m.push(p)[0] == m[0]);
        assert(m.push(p).drop_first() =~= m.drop_first().push(p));
    }
}

/// Removing an entry never disturbs lookups that do not name it.
pub proof fn lemma_lookup_remove(m: Seq<(Address, Id)>, i: int, a: Address, id: Id)
    requires
        0 <= i < m.len(),
    ensures
        m[i].0 != a ==> id_for(m.remove(i), a) == id_for(m, a),
        m[i].1 != id ==> addr_for(m.remove(i), id) == addr_for(m, id),
    decreases m.len(),
{
    if i == 0 {
        assert(m.remove(0) =~= m.drop_first());
    } else {
        lemma_lookup_remove(m.drop_first(), i - 1, a, id);
        assert(m.remove(i).drop_first() =~= m.drop_first().remove(i - 1));
        assert(m.remove(i)[0] == m[0]);
    }
}

/// The registry: the shared table resolving between transport address and
/// client identifier — the single source of truth for who a datagram is
/// from. Entries sit in assignment order.
pub struct State {
    entries: Vec<(Address, Id)>,
}

impl View for State {
    type V = Seq<(Address, Id)>;

    closed spec fn view(&self) -> Seq<(Address, Id)> {
        self.entries@
    }
}

impl State {
    /// At most one identifier per address and one address per identifier,
    /// at every instant.
    pub open spec fn wf(&self) -> bool {
        &&& forall|i: int, j: int|
            0 <= i < j < self@.len() ==> (#[trigger] self@[i]).0 != (#[trigger] self@[j]).0
        &&& forall|i: int, j: int|
            0 <= i < j < self@.len() ==> (#[trigger] self@[i]).1 != (#[trigger] self@[j]).1
    }

    pub fn new() -> (r: State)
        ensures
            r@ == Seq::<(Address, Id)>::empty(),
            r.wf(),
    {
        State { entries: Vec::new() }
    }

    /// Looks up the identifier assigned to a transport address.
    pub fn resolve(&self, addr: Address) -> (r: Option<Id>)
        ensures
            r == id_for(self@, addr),
            r is Some <==> has_addr(self@, addr),
    {
        let n = self.entries.len();
        for i in 0..n
            invariant
                n == self@.len(),
                forall|k: int| 0 <= k < i ==> (#[trigger] self@[k]).0 != addr,
        {
            if self.entries[i].0 == addr {
                proof {
                    lemma_lookup_at(self@, i as int);
                }
                return Some(self.entries[i].1);
            }
        }
        proof {
            lemma_lookup_none(self@, addr, Id(0));
        }
        None
    }

    /// Looks up the transport address an identifier is bound to.
    pub fn address_of(&self, id: Id) -> (r: Option<Address>)
        ensures
            r == addr_for(self@, id),
            r is Some <==> has_id(self@, id),
    {
        let n = self.entries.len();
        for i in 0..n
            invariant
                n == self@.len(),
                forall|k: int| 0 <= k < i ==> (#[trigger] self@[k]).1 != id,
        {
            if self.entries[i].1 == id {
                proof {
                    lemma_lookup_at(self@, i as int);
                }
                return Some(self.entries[i].0);
            }
        }
        proof {
            lemma_lookup_none(self@, Address { host: 0, port: 0 }, id);
        }
        None
    }

    /// Binds `addr` to `id`, refusing either half of the pair if it is
    /// already taken; the address is checked first.
    pub fn insert(&mut self, addr: Address, id: Id) -> (r: Result<(), RegistryError>)
        requires
            old(self).wf(),
        ensures
            final(self).wf(),
            r is Ok <==> !has_addr(old(self)@, addr) && !has_id(old(self)@, id),
            r is Ok ==> final(self)@ == old(self)@.push((addr, id)),
            r is Err ==> final(self)@ == old(self)@,
            r == Err::<(), RegistryError>(RegistryError::AddressInUse) <==> has_addr(
                old(self)@,
                addr,
            ),
            r == Err::<(), RegistryError>(RegistryError::IdentifierInUse) <==> !has_addr(
                old(self)@,
                addr,
            ) && has_id(old(self)@, id),
    {
        if self.resolve(addr).is_some() {
            return Err(RegistryError::AddressInUse);
        }
        if self.address_of(id).is_some() {
            return Err(RegistryError::IdentifierInUse);
        }
        proof {
            let m = self@;
            assert forall|i: int| 0 <= i < m.len() implies (#[trigger] m[i]).0 != addr && m[i].1
                != id by {
                assert(has_addr(m, addr) || m[i].0 != addr);
                assert(has_id(m, id) || m[i].1 != id);
            }
        }
        self.entries.push((addr, id));
        Ok(())
    }

    /// Assigns a freshly drawn identifier to an unassigned address. The
    /// draw is random: if it collides with an identifier already in the
    /// table, the assignment is refused and the table is left unchanged.
    pub fn assign(&mut self, addr: Address) -> (r: Result<Id, RegistryError>)
        requires
            old(self).wf(),
        ensures
            final(self).wf(),
            r matches Ok(id) ==> !has_addr(old(self)@, addr) && !has_id(old(self)@, id)
                && final(self)@ == old(self)@.push((addr, id)),
            r matches Ok(id) ==> id_for(final(self)@, addr) == Some(id) && addr_for(
                final(self)@,
                id,
            ) == Some(addr),
            r is Err ==> final(self)@ == old(self)@,
            r == Err::<Id, RegistryError>(RegistryError::AddressInUse) <==> has_addr(
                old(self)@,
                addr,
            ),
    {
        let id = draw_identifier();
        match self.insert(addr, id) {
            Ok(()) => {
                proof {
                    lemma_assign_resolves(old(self)@, addr, id);
                }
                Ok(id)
            },
            Err(e) => Err(e),
        }
    }

    /// Unbinds an identifier and the address it was assigned to; removing
    /// an identifier the table does not hold is a no-op. Every other
    /// binding resolves exactly as before.
    pub fn remove(&mut self, id: Id)
        requires
            old(self).wf(),
        ensures
            final(self).wf(),
            !has_id(old(self)@, id) ==> final(self)@ == old(self)@,
            !has_id(final(self)@, id),
            addr_for(old(self)@, id) matches Some(addr) ==> !has_addr(final(self)@, addr)
                && final(self)@.len() == old(self)@.len() - 1,
            forall|a: Address|
                addr_for(old(self)@, id) != Some(a) ==> id_for(final(self)@, a) == id_for(
                    old(self)@,
                    a,
                ),
            forall|x: Id|
                x != id ==> addr_for(final(self)@, x) == addr_for(old(self)@, x),
    {
        let ghost m0 = self@;
        let n = self.entries.len();
        for i in 0..n
            invariant
                n == self@.len(),
                self@ == m0,
                m0 == old(self)@,
                forall|p: int, q: int|
                    0 <= p < q < m0.len() ==> (#[trigger] m0[p]).0 != (#[trigger] m0[q]).0,
                forall|p: int, q: int|
                    0 <= p < q < m0.len() ==> (#[trigger] m0[p]).1 != (#[trigger] m0[q]).1,
                forall|k: int| 0 <= k < i ==> (#[trigger] m0[k]).1 != id,
        {
            if self.entries[i].1 == id {
                proof {
                    lemma_lookup_at(m0, i as int);
                }
                self.entries.remove(i);
                proof {
                    let m1 = self@;
                    assert(m1 == m0.remove(i as int));
                    m0.remove_ensures(i as int);
                    assert forall|p: int, q: int|
                        0 <= p < q < m1.len() implies (#[trigger] m1[p]).0 != (#[trigger] m1[q]).0
                        && m1[p].1 != m1[q].1 by {
                        if q < i {
                        } else if p < i {
                            assert(m1[q] == m0[q + 1]);
                        } else {
                            assert(m1[p] == m0[p + 1]);
                            assert(m1[q] == m0[q + 1]);
                        }
                    }
                    assert forall|k: int| 0 <= k < m1.len() implies (#[trigger] m1[k]).1 != id by {
                        if k >= i {
                            assert(m1[k] == m0[k + 1]);
                        }
                    }
                    lemma_lookup_none(m1, Address { host: 0, port: 0 }, id);
                    assert forall|a: Address|
                        addr_for(m0, id) != Some(a) implies id_for(m1, a) == id_for(m0, a) by {
                        assert(m0[i as int].0 != a);
                        lemma_lookup_remove(m0, i as int, a, id);
                    }
                    assert forall|x: Id| x != id implies addr_for(m1, x) == addr_for(m0, x) by {
                        lemma_lookup_remove(m0, i as int, Address { host: 0, port: 0 }, x);
                    }
                    assert forall|k: int| 0 <= k < m1.len() implies (#[trigger] m1[k]).0
                        != m0[i as int].0 by {
                        if k >= i {
                            assert(m1[k] == m0[k + 1]);
                        }
                    }
                }
                return ;
            }
        }
        proof {
            lemma_lookup_none(m0, Address { host: 0, port: 0 }, id);
        }
    }
}

/// Law: two distinct addresses the registry resolves never share an
/// identifier — every client is its own session.
pub proof fn lemma_distinct_identifiers(s: State, a1: Address, a2: Address)
    requires
        s.wf(),
        a1 != a2,
        id_for(s@, a1) is Some,
        id_for(s@, a2) is Some,
    ensures
        id_for(s@, a1) != id_for(s@, a2),
{
    lemma_lookup_witness(s@, a1, id_for(s@, a1)->Some_0);
    lemma_lookup_witness(s@, a2, id_for(s@, a2)->Some_0);
    let i1 = choose|i: int| 0 <= i < s@.len() && #[trigger] s@[i] == (a1, id_for(s@, a1)->Some_0);
    let i2 = choose|i: int| 0 <= i < s@.len() && #[trigger] s@[i] == (a2, id_for(s@, a2)->Some_0);
    assert(i1 != i2);
}

/// Law: an assignment is immediately visible and disturbs nobody — after
/// binding a fresh address to a fresh identifier, the address resolves to
/// exactly that identifier, the identifier leads back to the address, and
/// every other lookup answers as before.
pub proof fn lemma_assign_resolves(m: Seq<(Address, Id)>, addr: Address, id: Id)
    requires
        !has_addr(m, addr),
        !has_id(m, id),
    ensures
        id_for(m.push((addr, id)), addr) == Some(id),
        addr_for(m.push((addr, id)), id) == Some(addr),
        forall|a: Address| a != addr ==> id_for(m.push((addr, id)), a) == id_for(m, a),
        forall|x: Id| x != id ==> addr_for(m.push((addr, id)), x) == addr_for(m, x),
{
    lemma_lookup_none(m, addr, id);
    lemma_lookup_push(m, (addr, id), addr, id);
    assert forall|a: Address| a != addr implies id_for(m.push((addr, id)), a) == id_for(m, a) by {
        lemma_lookup_push(m, (addr, id), a, id);
        if id_for(m, a) is None {
            lemma_lookup_witness(m, a, id);
        }
    }
    assert forall|x: Id| x != id implies addr_for(m.push((addr, id)), x) == addr_for(m, x) by {
        lemma_lookup_push(m, (addr, id), addr, x);
        if addr_for(m, x) is None {
            lemma_lookup_witness(m, addr, x);
        }
    }
}

/// Under `wf` the two directions of the table agree: resolving an address
/// and then looking the identifier up again leads back to that address.
pub proof fn lemma_inverse(s: State, a: Address)
    requires
        s.wf(),
    ensures
        id_for(s@, a) matches Some(id) ==> addr_for(s@, id) == Some(a),
{
    if id_for(s@, a) is Some {
        let id = id_for(s@, a)->Some_0;
        lemma_lookup_witness(s@, a, id);
        let i = choose|i: int| 0 <= i < s@.len() && #[trigger] s@[i] == (a, id);
        lemma_lookup_at(s@, i);
    }
}

/// Relies on `uuid::Uuid::new_v4`: a freshly drawn random version-4 UUID,
/// carried as its 128-bit value. Nothing is promised of the value — the
/// caller must check it against the registry before treating it as unique.
#[verifier::external_body]
fn draw_identifier() -> (r: Id) {
    Id(uuid::Uuid::new_v4().as_u128())
}

} // verus!
