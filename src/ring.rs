use vstd::prelude::*;

verus! {

/// An ordered set of clients served round-robin: `next` advances the
/// cursor and then hands out the client under it; `evict_current` drops the
/// client under the cursor without moving it.
pub struct ClientRing<C> {
    clients: Vec<C>,
    index: usize,
}

impl<C> ClientRing<C> {
    /// The clients, in order.
    pub closed spec fn clients(&self) -> Seq<C> {
        self.clients@
    }

    /// The cursor.
    pub closed spec fn cursor(&self) -> nat {
        self.index as nat
    }

    /// An empty ring with its cursor at 0.
    pub fn new() -> (r: Self)
        ensures
            r.clients() == Seq::<C>::empty(),
            r.cursor() == 0,
    {
        ClientRing { clients: Vec::new(), index: 0 }
    }

    /// Number of clients.
    pub fn len(&self) -> (r: usize)
        ensures
            r == self.clients().len(),
    {
        self.clients.len()
    }

    /// Whether the ring holds no client.
    pub fn is_empty(&self) -> (r: bool)
        ensures
            r == (self.clients().len() == 0),
    {
        self.clients.len() == 0
    }

    /// The cursor.
    pub fn index(&self) -> (r: usize)
        ensures
            r == self.cursor(),
    {
        self.index
    }

    /// Appends a client; the cursor stays.
    pub fn add(&mut self, client: C)
        ensures
            final(self).clients() == old(self).clients().push(client),
            final(self).cursor() == old(self).cursor(),
    {
        self.clients.push(client);
    }

    /// Moves the cursor one step, wrapping at the end, and returns the
    /// client under it; `None`, with the cursor unmoved, when the ring is
    /// empty.
    pub fn next(&mut self) -> (r: Option<&C>)
        ensures
            final(self).clients() == old(self).clients(),
            old(self).clients().len() == 0 ==> r is None && final(self).cursor() == old(self).cursor(),
            old(self).clients().len() > 0 ==> {
                &&& final(self).cursor() as int == (old(self).cursor() as int + 1) % (old(self).clients().len() as int)
                &&& r == Some(&old(self).clients()[final(self).cursor() as int])
            },
    {
        let n = self.clients.len();
        if n == 0 {
            return None;
        }
        self.index = ((self.index as u128 + 1) % (n as u128)) as usize;
        Some(&self.clients[self.index])
    }

    /// Removes the client under the cursor, leaving the cursor where it is.
    /// A cursor past the end, as left by evicting the last client, removes
    /// nothing.
    pub fn evict_current(&mut self)
        ensures
            final(self).cursor() == old(self).cursor(),
            old(self).cursor() < old(self).clients().len() ==> final(self).clients() == old(self).clients().remove(old(self).cursor() as int),
            old(self).cursor() >= old(self).clients().len() ==> final(self).clients() == old(self).clients(),
    {
        if self.index < self.clients.len() {
            self.clients.remove(self.index);
        }
    }
}

/// The cursor after `k` calls of `next` from cursor `c` on a ring of `n`
/// clients, none evicted.
pub open spec fn cursor_after(c: int, n: int, k: nat) -> int
    decreases k,
{
    if k == 0 {
        c
    } else {
        (cursor_after(c, n, (k - 1) as nat) + 1) % n
    }
}

/// Round-robin: with no eviction, `k` calls of `next` from cursor `c` on
/// `n` clients leave the cursor at `(c + k) mod n`, so successive calls
/// hand out positions `c + 1`, `c + 2`, ... modulo `n`.
pub proof fn lemma_round_robin(c: int, n: int, k: nat)
    requires
        n > 0,
        0 <= c < n,
    ensures
        cursor_after(c, n, k) == (c + k) % n,
    decreases k,
{
    if k == 0 {
        vstd::arithmetic::div_mod::lemma_small_mod(c as nat, n as nat);
    } else {
        lemma_round_robin(c, n, (k - 1) as nat);
        let x = c + k - 1;
        vstd::arithmetic::div_mod::lemma_add_mod_noop(x, 1, n);
        if n == 1 {
            vstd::arithmetic::div_mod::lemma_mod_self_0(1);
        } else {
            vstd::arithmetic::div_mod::lemma_small_mod(1, n as nat);
        }
        vstd::arithmetic::div_mod::lemma_mod_twice(x, n);
    }
}

} // verus!
